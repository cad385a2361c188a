//! Widgets on the canvas: the palette, what the mouse can hit, and the composed frame the
//! screens and panels paint into.

use vstd::prelude::*;
use crate::layout::{PANEL_COLOR, Rect, fits_i32, pad_buttons, spec_pad_buttons};
use crate::raster::{Ink, Raster, Rgb, painted_by};

verus! {

/// Panel background.
pub const PANEL: Rgb = PANEL_COLOR;
/// Ordinary text.
pub const TEXT: Rgb = (236, 236, 228);
/// Selected text, hover outlines, pressed buttons.
pub const HI: Rgb = (255, 214, 90);
/// Hints and disabled controls.
pub const DIM: Rgb = (120, 124, 140);
/// Button frames.
pub const FRAME: Rgb = (72, 76, 96);
/// Rejections and low hit points.
pub const ALERT: Rgb = (232, 88, 72);
/// Spell points.
pub const SP: Rgb = (120, 170, 255);

/// A turn of the party.
#[derive(Debug, Clone, Copy, PartialEq, Eq, Structural)]
pub enum Rotation {
    /// A quarter turn left.
    Left,
    /// A quarter turn right.
    Right,
}

/// A step of the party, relative to its facing.
#[derive(Debug, Clone, Copy, PartialEq, Eq, Structural)]
pub enum Direction {
    /// Ahead.
    Forward,
    /// Behind.
    Back,
    /// Sidestep left.
    Left,
    /// Sidestep right.
    Right,
}

/// A movement command the pad sends to the simulation.
#[derive(Debug, Clone, Copy, PartialEq, Eq, Structural)]
pub enum Command {
    /// Turn in place.
    Turn(Rotation),
    /// Step one tile.
    Step(Direction),
    /// Interact with the facing edge.
    Interact,
}

/// A movement pad button.
#[derive(Debug, Clone, Copy, PartialEq, Eq, Hash, Structural)]
pub enum PadButton {
    /// Turn left.
    TurnLeft,
    /// Step forward.
    Forward,
    /// Turn right.
    TurnRight,
    /// Sidestep left.
    StepLeft,
    /// Step back.
    Back,
    /// Sidestep right.
    StepRight,
    /// Interact with the facing edge.
    Use,
}

/// Every pad button, in the pad's reading order.
pub const PAD_BUTTON_ORDER: [PadButton; 7] = [
    PadButton::TurnLeft,
    PadButton::Forward,
    PadButton::TurnRight,
    PadButton::StepLeft,
    PadButton::Back,
    PadButton::StepRight,
    PadButton::Use,
];

impl PadButton {
    /// The button's place in the pad's reading order.
    pub open spec fn spec_index(self) -> int {
        match self {
            PadButton::TurnLeft => 0,
            PadButton::Forward => 1,
            PadButton::TurnRight => 2,
            PadButton::StepLeft => 3,
            PadButton::Back => 4,
            PadButton::StepRight => 5,
            PadButton::Use => 6,
        }
    }

    /// The glyphs on the button.
    pub open spec fn spec_label(self) -> Seq<char> {
        match self {
            PadButton::TurnLeft => seq!['<'],
            PadButton::Forward => seq!['^'],
            PadButton::TurnRight => seq!['>'],
            PadButton::StepLeft => seq!['<', '-'],
            PadButton::Back => seq!['v'],
            PadButton::StepRight => seq!['-', '>'],
            PadButton::Use => seq!['U', 'S', 'E'],
        }
    }

    /// The button's place in the pad's reading order.
    pub fn index(self) -> (r: usize)
        ensures
            r == self.spec_index(),
    {
        match self {
            PadButton::TurnLeft => 0,
            PadButton::Forward => 1,
            PadButton::TurnRight => 2,
            PadButton::StepLeft => 3,
            PadButton::Back => 4,
            PadButton::StepRight => 5,
            PadButton::Use => 6,
        }
    }

    /// The command the button sends.
    pub fn command(self) -> (r: Command)
        ensures
            r == match self {
                PadButton::TurnLeft => Command::Turn(Rotation::Left),
                PadButton::Forward => Command::Step(Direction::Forward),
                PadButton::TurnRight => Command::Turn(Rotation::Right),
                PadButton::StepLeft => Command::Step(Direction::Left),
                PadButton::Back => Command::Step(Direction::Back),
                PadButton::StepRight => Command::Step(Direction::Right),
                PadButton::Use => Command::Interact,
            },
    {
        match self {
            PadButton::TurnLeft => Command::Turn(Rotation::Left),
            PadButton::Forward => Command::Step(Direction::Forward),
            PadButton::TurnRight => Command::Turn(Rotation::Right),
            PadButton::StepLeft => Command::Step(Direction::Left),
            PadButton::Back => Command::Step(Direction::Back),
            PadButton::StepRight => Command::Step(Direction::Right),
            PadButton::Use => Command::Interact,
        }
    }

    /// The glyphs on the button.
    pub fn label(self) -> (r: &'static str)
        ensures
            r@ == self.spec_label(),
    {
        proof {
            reveal_strlit("<");
            reveal_strlit("^");
            reveal_strlit(">");
            reveal_strlit("<-");
            reveal_strlit("v");
            reveal_strlit("->");
            reveal_strlit("USE");
        }
        match self {
            PadButton::TurnLeft => "<",
            PadButton::Forward => "^",
            PadButton::TurnRight => ">",
            PadButton::StepLeft => "<-",
            PadButton::Back => "v",
            PadButton::StepRight => "->",
            PadButton::Use => "USE",
        }
    }

    /// Where the button sits: its place among the pad's buttons.
    pub fn rect(self) -> (r: Rect)
        ensures
            r == spec_pad_buttons(self.spec_index()),
    {
        pad_buttons(self.index())
    }
}

/// A button of the tool pad above the movement pad.
#[derive(Debug, Clone, Copy, PartialEq, Eq, Hash, Structural)]
pub enum ToolButton {
    /// The inventory overlay.
    Items,
    /// The cast menu.
    Spells,
    /// The character sheet.
    Sheet,
    /// A look ahead.
    Look,
    /// The large automap.
    Automap,
    /// The pause overlay.
    Menu,
}

/// Every tool button, in the tool pad's reading order.
pub const TOOL_BUTTON_ORDER: [ToolButton; 6] = [
    ToolButton::Items,
    ToolButton::Spells,
    ToolButton::Sheet,
    ToolButton::Look,
    ToolButton::Automap,
    ToolButton::Menu,
];

/// The tool button at place `i` of the tool pad: three across, two down, in the pad's
/// columns, the second row ending a gap above the movement pad.
pub open spec fn spec_tool_rect(i: int) -> Rect {
    Rect { x: (968 + (i % 3) * 104) as i32, y: (300 + (i / 3) * 48) as i32, w: 96, h: 40 }
}

impl ToolButton {
    /// The button's place in the tool pad's reading order.
    pub open spec fn spec_index(self) -> int {
        match self {
            ToolButton::Items => 0,
            ToolButton::Spells => 1,
            ToolButton::Sheet => 2,
            ToolButton::Look => 3,
            ToolButton::Automap => 4,
            ToolButton::Menu => 5,
        }
    }

    /// The word on the button.
    pub open spec fn spec_label(self) -> Seq<char> {
        match self {
            ToolButton::Items => seq!['I', 'T', 'E', 'M', 'S'],
            ToolButton::Spells => seq!['S', 'P', 'E', 'L', 'L', 'S'],
            ToolButton::Sheet => seq!['S', 'H', 'E', 'E', 'T'],
            ToolButton::Look => seq!['L', 'O', 'O', 'K'],
            ToolButton::Automap => seq!['M', 'A', 'P'],
            ToolButton::Menu => seq!['M', 'E', 'N', 'U'],
        }
    }

    /// The button's place in the tool pad's reading order.
    pub fn index(self) -> (r: usize)
        ensures
            r == self.spec_index(),
    {
        match self {
            ToolButton::Items => 0,
            ToolButton::Spells => 1,
            ToolButton::Sheet => 2,
            ToolButton::Look => 3,
            ToolButton::Automap => 4,
            ToolButton::Menu => 5,
        }
    }

    /// The word on the button.
    pub fn label(self) -> (r: &'static str)
        ensures
            r@ == self.spec_label(),
    {
        proof {
            reveal_strlit("ITEMS");
            reveal_strlit("SPELLS");
            reveal_strlit("SHEET");
            reveal_strlit("LOOK");
            reveal_strlit("MAP");
            reveal_strlit("MENU");
        }
        match self {
            ToolButton::Items => "ITEMS",
            ToolButton::Spells => "SPELLS",
            ToolButton::Sheet => "SHEET",
            ToolButton::Look => "LOOK",
            ToolButton::Automap => "MAP",
            ToolButton::Menu => "MENU",
        }
    }

    /// Where the button sits.
    pub fn rect(self) -> (r: Rect)
        ensures
            r == spec_tool_rect(self.spec_index()),
    {
        let i = self.index() as i32;
        Rect::new(968 + (i % 3) * 104, 300 + (i / 3) * 48, 96, 40)
    }
}

/// Whether a pad is drawn and live.
#[derive(Debug, Clone, Copy, PartialEq, Eq, Structural)]
pub enum PadState {
    /// No world: nothing drawn.
    Hidden,
    /// A world, but not exploring: drawn dim, inert.
    Disabled,
    /// Exploring.
    Enabled,
}

/// The state of each tool button; all hidden until a world is up.
#[derive(Debug, Clone, Copy, PartialEq, Eq)]
pub struct ToolStates {
    /// By the button's place in the tool pad's reading order.
    pub states: [PadState; 6],
}

impl ToolStates {
    /// Every button in one state.
    pub fn all(state: PadState) -> (r: ToolStates)
        ensures
            forall|i: int| 0 <= i < 6 ==> r.states[i] == state,
    {
        ToolStates { states: [state, state, state, state, state, state] }
    }

    /// A button's state.
    pub fn get(&self, button: ToolButton) -> (r: PadState)
        ensures
            r == self.states[button.spec_index()],
    {
        self.states[button.index()]
    }

    /// Set a button's state, leaving the others.
    pub fn set(&mut self, button: ToolButton, state: PadState)
        ensures
            final(self).states@ == old(self).states@.update(button.spec_index(), state),
    {
        let i = button.index();
        self.states[i] = state;
    }
}

impl Default for ToolStates {
    /// Every button hidden.
    fn default() -> (r: ToolStates)
        ensures
            forall|i: int| 0 <= i < 6 ==> r.states[i] == PadState::Hidden,
    {
        ToolStates::all(PadState::Hidden)
    }
}

/// What a widget stands for.
#[derive(Debug, Clone, Copy, PartialEq, Eq, Hash, Structural)]
pub enum WidgetId {
    /// A row of the active menu, by the model's row index.
    Row(usize),
    /// A skill pick on the creation screen.
    Skill(usize),
    /// A pad button.
    Pad(PadButton),
    /// A tool pad button.
    Tool(ToolButton),
    /// A party slot in the band.
    Member(usize),
    /// A monster stack row in a fight, by its index in the encounter.
    Stack(usize),
    /// A button on the combat or encounter action row, by the menu's action index.
    Action(usize),
    /// A row of the spell picker in a fight, by the caster's spell index.
    Spell(usize),
}

/// Which part of a widget was hit.
#[derive(Debug, Clone, Copy, PartialEq, Eq, Structural)]
pub enum Part {
    /// The widget itself.
    Body,
    /// The `<` arrow.
    Left,
    /// The `>` arrow.
    Right,
}

/// How a widget answers a click.
#[derive(Debug, Clone, Copy, PartialEq, Eq, Structural)]
pub enum Kind {
    /// Activates: Enter.
    Button,
    /// Cycles by its arrows: Left or Right.
    Choice,
    /// Takes the keyboard focus only.
    TextField,
    /// Toggles: Enter.
    Toggle,
}

/// A hit region on the canvas.
#[derive(Debug, Clone, Copy, PartialEq, Eq, Structural)]
pub struct Widget {
    /// What it stands for.
    pub id: WidgetId,
    /// Where it is.
    pub rect: Rect,
    /// How it answers a click.
    pub kind: Kind,
    /// Whether it reacts at all.
    pub enabled: bool,
    /// Whether it draws its own frame, so the hover outline replaces it instead of wrapping.
    pub framed: bool,
    /// The `<` arrow, for a choice.
    pub left: Option<Rect>,
    /// The `>` arrow, for a choice.
    pub right: Option<Rect>,
}

impl Widget {
    /// An enabled, unframed widget without arrows, as the spec sees it.
    pub open spec fn spec_new(id: WidgetId, rect: Rect, kind: Kind) -> Widget {
        Widget { id, rect, kind, enabled: true, framed: false, left: None, right: None }
    }

    /// An enabled, unframed widget without arrows.
    pub fn new(id: WidgetId, rect: Rect, kind: Kind) -> (r: Widget)
        ensures
            r == Widget::spec_new(id, rect, kind),
    {
        Widget { id, rect, kind, enabled: true, framed: false, left: None, right: None }
    }
}

/// A hit: the widget under the pointer and which part.
#[derive(Debug, Clone, Copy, PartialEq, Eq, Structural)]
pub struct Hit {
    /// The widget.
    pub id: WidgetId,
    /// The part.
    pub part: Part,
    /// How the widget answers.
    pub kind: Kind,
}

/// The part of a widget under a point inside it: an arrow when the point is on it, the left
/// one first, else the body.
pub open spec fn spec_part(w: Widget, x: int, y: int) -> Part {
    if w.left is Some && w.left->0.spec_contains(x, y) {
        Part::Left
    } else if w.right is Some && w.right->0.spec_contains(x, y) {
        Part::Right
    } else {
        Part::Body
    }
}

/// The topmost enabled widget under a canvas pixel: the last painted that is enabled and
/// contains it, and the part of it under the pixel.
pub open spec fn spec_hit(widgets: Seq<Widget>, x: int, y: int) -> Option<Hit>
    decreases widgets.len(),
{
    if widgets.len() == 0 {
        None
    } else {
        let w = widgets.last();
        if w.enabled && w.rect.spec_contains(x, y) {
            Some(Hit { id: w.id, part: spec_part(w, x, y), kind: w.kind })
        } else {
            spec_hit(widgets.drop_last(), x, y)
        }
    }
}

/// The topmost enabled widget under a canvas pixel.
pub fn hit(widgets: &[Widget], x: i32, y: i32) -> (r: Option<Hit>)
    ensures
        r == spec_hit(widgets@, x as int, y as int),
{
    let mut i = widgets.len();
    assert(widgets@.take(i as int) =~= widgets@);
    while i > 0
        invariant
            i <= widgets@.len(),
            spec_hit(widgets@, x as int, y as int) == spec_hit(widgets@.take(i as int), x as int, y as int),
        decreases i,
    {
        let w = widgets[i - 1];
        proof {
            assert(widgets@.take(i as int).drop_last() =~= widgets@.take(i - 1));
        }
        if w.enabled && w.rect.contains(x, y) {
            let part = match w.left {
                Some(r) if r.contains(x, y) => Part::Left,
                _ => match w.right {
                    Some(r) if r.contains(x, y) => Part::Right,
                    _ => Part::Body,
                },
            };
            return Some(Hit { id: w.id, part, kind: w.kind });
        }
        i = i - 1;
    }
    assert(widgets@.take(0) =~= Seq::<Widget>::empty());
    None
}

/// The first widget with this id.
pub open spec fn spec_widget(widgets: Seq<Widget>, id: WidgetId) -> Option<Widget>
    decreases widgets.len(),
{
    if widgets.len() == 0 {
        None
    } else if widgets[0].id == id {
        Some(widgets[0])
    } else {
        spec_widget(widgets.drop_first(), id)
    }
}

/// A widget painted at `origin`, its rectangles in canvas space.
pub open spec fn spec_moved(w: Widget, origin: (i32, i32)) -> Widget {
    Widget {
        rect: Rect { x: (w.rect.x + origin.0) as i32, y: (w.rect.y + origin.1) as i32, ..w.rect },
        left: match w.left {
            Some(r) => Some(Rect { x: (r.x + origin.0) as i32, y: (r.y + origin.1) as i32, ..r }),
            None => None,
        },
        right: match w.right {
            Some(r) => Some(Rect { x: (r.x + origin.0) as i32, y: (r.y + origin.1) as i32, ..r }),
            None => None,
        },
        ..w
    }
}

/// Whether a widget's rectangles stay canvas coordinates when moved by `origin`.
pub open spec fn movable(w: Widget, origin: (i32, i32)) -> bool {
    &&& fits_i32(w.rect.x + origin.0) && fits_i32(w.rect.y + origin.1)
    &&& w.left is Some ==> fits_i32(w.left->0.x + origin.0) && fits_i32(w.left->0.y + origin.1)
    &&& w.right is Some ==> fits_i32(w.right->0.x + origin.0) && fits_i32(w.right->0.y + origin.1)
}

/// The rectangle the hover outline strokes: a framed widget's own, else one pixel wider on
/// every side.
pub open spec fn spec_outline_rect(w: Widget) -> Rect {
    if w.framed {
        w.rect
    } else {
        Rect {
            x: (w.rect.x - 1) as i32,
            y: (w.rect.y - 1) as i32,
            w: (w.rect.w + 2) as u32,
            h: (w.rect.h + 2) as u32,
        }
    }
}

/// Whether the outline rectangle of a widget is a rectangle of canvas coordinates.
pub open spec fn outlinable(w: Widget) -> bool {
    w.rect.x > i32::MIN && w.rect.y > i32::MIN && w.rect.w < u32::MAX - 1 && w.rect.h < u32::MAX - 1
}

/// One composed frame: the pixels and the widgets that were painted.
#[derive(Debug, Clone, PartialEq, Eq)]
pub struct Frame {
    /// The pixels.
    pub raster: Raster,
    /// The hit regions, in paint order.
    pub widgets: Vec<Widget>,
}

impl Frame {
    /// The raster holds four bytes for each of its pixels.
    pub open spec fn wf(&self) -> bool {
        self.raster.wf()
    }

    /// A frame after painting `ops` through its origin and registering `pushed`: the same
    /// size and origin, the pixels the inks give, the widgets moved by the origin appended.
    pub open spec fn painted(before: Frame, after: Frame, ops: Seq<Ink>, pushed: Seq<Widget>) -> bool {
        &&& after.wf()
        &&& after.raster.width == before.raster.width
        &&& after.raster.height == before.raster.height
        &&& after.raster.origin == before.raster.origin
        &&& Frame::painted_content(before, after, ops, pushed)
    }

    /// The pixels and the widgets of a painted frame.
    #[verifier::opaque]
    pub open spec fn painted_content(before: Frame, after: Frame, ops: Seq<Ink>, pushed: Seq<Widget>) -> bool {
        &&& after.raster.rgba@ == crate::raster::apply_inks(
            before.raster.rgba@,
            before.raster.width as int,
            before.raster.origin,
            ops,
        )
        &&& after.widgets@ == before.widgets@ + pushed.map_values(
            |w: Widget| spec_moved(w, before.raster.origin),
        )
    }

    /// Blank the pixels and forget the widgets, keeping the buffer.
    pub fn clear(&mut self)
        ensures
            final(self).raster.width == old(self).raster.width,
            final(self).raster.height == old(self).raster.height,
            final(self).raster.origin == old(self).raster.origin,
            final(self).raster.rgba@.len() == old(self).raster.rgba@.len(),
            forall|i: int|
                0 <= i < final(self).raster.rgba@.len() ==> final(self).raster.rgba@[i] == 0,
            final(self).widgets@.len() == 0,
    {
        self.raster.clear();
        self.widgets.clear();
    }

    /// A blank frame of this size, keeping the buffer when the size is unchanged.
    pub fn reset(&mut self, width: u32, height: u32)
        requires
            width * height * 4 <= usize::MAX,
        ensures
            final(self).wf(),
            final(self).raster.width == width,
            final(self).raster.height == height,
            final(self).raster.origin == (0i32, 0i32),
            forall|i: int|
                0 <= i < final(self).raster.rgba@.len() ==> final(self).raster.rgba@[i] == 0,
            final(self).widgets@.len() == 0,
    {
        self.raster.reset(width, height);
        self.widgets.clear();
    }

    /// Paint a region through its origin: the closure's coordinates are relative to it, in
    /// pixels and in the widgets it pushes; the origin is `(0, 0)` again afterwards. The
    /// closure is handed this frame with the origin set.
    pub fn within(&mut self, origin: (i32, i32), paint: impl FnOnce(&mut Frame))
        requires
            forall|f: &mut Frame|
                f.raster == (Raster { origin, ..old(self).raster }) && f.widgets == old(self).widgets
                    ==> call_requires(paint, (f,)),
        ensures
            final(self).raster.origin == (0i32, 0i32),
            exists|f: &mut Frame|
                {
                    &&& f.raster == (Raster { origin, ..old(self).raster })
                    &&& f.widgets == old(self).widgets
                    &&& call_ensures(paint, (f,), ())
                    &&& final(self).widgets == final(f).widgets
                    &&& final(self).raster == (Raster { origin: (0i32, 0i32), ..final(f).raster })
                },
    {
        self.raster.origin = origin;
        paint(self);
        self.raster.origin = (0, 0);
    }

    /// Register a widget painted at the current origin: its rectangles land in canvas space.
    pub fn push(&mut self, widget: Widget)
        requires
            movable(widget, old(self).raster.origin),
        ensures
            final(self).raster == old(self).raster,
            final(self).widgets@ == old(self).widgets@.push(spec_moved(widget, old(self).raster.origin)),
    {
        let (dx, dy) = self.raster.origin;
        let mut w = widget;
        w.rect = w.rect.shifted(dx, dy);
        w.left = match w.left {
            Some(r) => Some(r.shifted(dx, dy)),
            None => None,
        };
        w.right = match w.right {
            Some(r) => Some(r.shifted(dx, dy)),
            None => None,
        };
        self.widgets.push(w);
    }

    /// The widget with this id, if painted: the first registered.
    pub fn widget(&self, id: WidgetId) -> (r: Option<&Widget>)
        ensures
            r matches Some(w) ==> spec_widget(self.widgets@, id) == Some(*w),
            r is None ==> spec_widget(self.widgets@, id) is None,
    {
        let mut i: usize = 0;
        assert(self.widgets@.skip(0) =~= self.widgets@);
        while i < self.widgets.len()
            invariant
                i <= self.widgets@.len(),
                spec_widget(self.widgets@, id) == spec_widget(self.widgets@.skip(i as int), id),
            decreases self.widgets@.len() - i,
        {
            proof {
                assert(self.widgets@.skip(i as int).drop_first() =~= self.widgets@.skip(i + 1));
            }
            if self.widgets[i].id == id {
                return Some(&self.widgets[i]);
            }
            i = i + 1;
        }
        None
    }

    /// Outline the hovered widget; widgets are in canvas space, so the origin must be off.
    /// An unknown or disabled widget outlines nothing.
    pub fn outline(&mut self, id: WidgetId)
        requires
            old(self).wf(),
            old(self).raster.origin == (0i32, 0i32),
            spec_widget(old(self).widgets@, id) matches Some(w) ==> outlinable(w),
        ensures
            final(self).widgets@ == old(self).widgets@,
            match spec_widget(old(self).widgets@, id) {
                Some(w) if w.enabled => painted_by(
                    old(self).raster,
                    final(self).raster,
                    Ink::Stroke { rect: spec_outline_rect(w), color: HI },
                ),
                _ => final(self).raster == old(self).raster,
            },
    {
        let found = self.widget(id);
        let w = match found {
            Some(w) => *w,
            None => {
                return;
            },
        };
        if !w.enabled {
            return;
        }
        let rect = if w.framed {
            w.rect
        } else {
            Rect::new(w.rect.x - 1, w.rect.y - 1, w.rect.w + 2, w.rect.h + 2)
        };
        self.raster.stroke(rect, HI);
    }
}

impl Default for Frame {
    /// A transparent canvas-sized frame with no widgets.
    fn default() -> (r: Frame)
        ensures
            r.wf(),
            r.raster.width == crate::layout::CANVAS_WIDTH,
            r.raster.height == crate::layout::CANVAS_HEIGHT,
            r.raster.origin == (0i32, 0i32),
            forall|i: int| 0 <= i < r.raster.rgba@.len() ==> r.raster.rgba@[i] == 0,
            r.widgets@.len() == 0,
    {
        Frame { raster: Raster::default(), widgets: Vec::new() }
    }
}

/// A paint of the raster alone is a painted frame with one ink and no widget.
pub proof fn lemma_frame_ink(before: Frame, after: Frame, op: Ink)
    requires
        painted_by(before.raster, after.raster, op),
        after.widgets@ == before.widgets@,
    ensures
        Frame::painted(before, after, seq![op], Seq::empty()),
{
    reveal(Frame::painted_content);
    crate::raster::lemma_apply_inks_push(
        before.raster.rgba@,
        before.raster.width as int,
        before.raster.origin,
        Seq::empty(),
        op,
    );
    assert(Seq::<Ink>::empty().push(op) =~= seq![op]);
    assert(Seq::<Widget>::empty().map_values(|w: Widget| spec_moved(w, before.raster.origin))
        =~= Seq::<Widget>::empty());
    assert(before.widgets@ + Seq::<Widget>::empty() =~= before.widgets@);
}

/// A registered widget is a painted frame with no ink and that widget.
pub proof fn lemma_frame_push(before: Frame, after: Frame, w: Widget)
    requires
        before.wf(),
        after.raster == before.raster,
        after.widgets@ == before.widgets@.push(spec_moved(w, before.raster.origin)),
    ensures
        Frame::painted(before, after, Seq::empty(), seq![w]),
{
    reveal(Frame::painted_content);
    assert(seq![w].map_values(|w: Widget| spec_moved(w, before.raster.origin)) =~= seq![
        spec_moved(w, before.raster.origin),
    ]);
    assert(before.widgets@ + seq![spec_moved(w, before.raster.origin)] =~= before.widgets@.push(
        spec_moved(w, before.raster.origin),
    ));
}

/// A frame that nothing changed is painted with nothing.
pub proof fn lemma_frame_nothing(f: Frame)
    requires
        f.wf(),
    ensures
        Frame::painted(f, f, Seq::empty(), Seq::empty()),
{
    reveal(Frame::painted_content);
    assert(Seq::<Widget>::empty().map_values(|w: Widget| spec_moved(w, f.raster.origin))
        =~= Seq::<Widget>::empty());
    assert(f.widgets@ + Seq::<Widget>::empty() =~= f.widgets@);
}

/// Painting one run and then another is painting both runs, in order, and registering both
/// runs of widgets.
pub proof fn lemma_frame_then(
    a: Frame,
    b: Frame,
    c: Frame,
    ops1: Seq<Ink>,
    ws1: Seq<Widget>,
    ops2: Seq<Ink>,
    ws2: Seq<Widget>,
)
    requires
        Frame::painted(a, b, ops1, ws1),
        Frame::painted(b, c, ops2, ws2),
    ensures
        Frame::painted(a, c, ops1 + ops2, ws1 + ws2),
{
    reveal(Frame::painted_content);
    crate::raster::lemma_apply_inks_concat(
        a.raster.rgba@,
        a.raster.width as int,
        a.raster.origin,
        ops1,
        ops2,
    );
    let f = |w: Widget| spec_moved(w, a.raster.origin);
    assert((ws1 + ws2).map_values(f) =~= ws1.map_values(f) + ws2.map_values(f));
    assert(a.widgets@ + ws1.map_values(f) + ws2.map_values(f) =~= a.widgets@ + (ws1 + ws2).map_values(f));
}

/// One more ink after a painted run.
pub proof fn lemma_frame_then_ink(a: Frame, b: Frame, c: Frame, ops: Seq<Ink>, ws: Seq<Widget>, op: Ink)
    requires
        Frame::painted(a, b, ops, ws),
        painted_by(b.raster, c.raster, op),
        c.widgets@ == b.widgets@,
    ensures
        Frame::painted(a, c, ops.push(op), ws),
{
    lemma_frame_ink(b, c, op);
    lemma_frame_then(a, b, c, ops, ws, seq![op], Seq::empty());
    assert(ops + seq![op] =~= ops.push(op));
    assert(ws + Seq::<Widget>::empty() =~= ws);
}

/// One more widget after a painted run.
pub proof fn lemma_frame_then_push(a: Frame, b: Frame, c: Frame, ops: Seq<Ink>, ws: Seq<Widget>, w: Widget)
    requires
        Frame::painted(a, b, ops, ws),
        c.raster == b.raster,
        c.widgets@ == b.widgets@.push(spec_moved(w, b.raster.origin)),
    ensures
        Frame::painted(a, c, ops, ws.push(w)),
{
    lemma_frame_push(b, c, w);
    lemma_frame_then(a, b, c, ops, ws, Seq::empty(), seq![w]);
    assert(ops + Seq::<Ink>::empty() =~= ops);
    assert(ws + seq![w] =~= ws.push(w));
}

/// Whether a widget answers the mouse at a pixel: enabled, and the pixel inside it.
pub open spec fn answers(w: Widget, x: int, y: int) -> bool {
    w.enabled && w.rect.spec_contains(x, y)
}

/// A hit is the topmost widget that answers the pixel: the widget found answers it, none
/// painted after it does, and the hit carries its id, kind and the part under the pixel;
/// no hit means no widget answers it.
pub proof fn lemma_hit_is_topmost(widgets: Seq<Widget>, x: int, y: int)
    ensures
        match spec_hit(widgets, x, y) {
            Some(h) => exists|k: int|
                0 <= k < widgets.len() && #[trigger] answers(widgets[k], x, y) && widgets[k].id == h.id
                    && widgets[k].kind == h.kind && spec_part(widgets[k], x, y) == h.part && forall|j: int|
                    k < j < widgets.len() ==> !answers(#[trigger] widgets[j], x, y),
            None => forall|k: int| 0 <= k < widgets.len() ==> !answers(#[trigger] widgets[k], x, y),
        },
    decreases widgets.len(),
{
    if widgets.len() > 0 {
        let n = widgets.len() - 1;
        let rest = widgets.drop_last();
        if answers(widgets[n], x, y) {
            assert(answers(widgets[n], x, y));
        } else {
            lemma_hit_is_topmost(rest, x, y);
            assert(spec_hit(widgets, x, y) == spec_hit(rest, x, y));
            match spec_hit(rest, x, y) {
                Some(h) => {
                    let k = choose|k: int|
                        0 <= k < rest.len() && #[trigger] answers(rest[k], x, y) && rest[k].id == h.id
                            && rest[k].kind == h.kind && spec_part(rest[k], x, y) == h.part && forall|j: int|
                            k < j < rest.len() ==> !answers(#[trigger] rest[j], x, y);
                    assert(widgets[k] == rest[k]);
                    assert forall|j: int| k < j < widgets.len() implies !answers(#[trigger] widgets[j], x, y) by {
                        if j < n {
                            assert(widgets[j] == rest[j]);
                        }
                    }
                    assert(answers(widgets[k], x, y));
                },
                None => {
                    assert forall|k: int| 0 <= k < widgets.len() implies !answers(#[trigger] widgets[k], x, y) by {
                        if k < n {
                            assert(widgets[k] == rest[k]);
                        }
                    }
                },
            }
        }
    }
}

} // verus!
