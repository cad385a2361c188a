//! The panel skin of party creation: which control is which (`PanelId`), what a control
//! reports (`Payload`), and `apply`, which turns a report into the same `CreationForm` edits
//! and `CreationAction`s as the canvas screen's keys. The widgets are not trusted: everything
//! is clamped and refused here, a value equal to the form's is dropped (a text or number
//! input reports again when it loses focus), and the rules are `CreationForm`'s own.

use vstd::prelude::*;
use crate::creation_menu::{
    ALIGNMENTS, Catalog, CreationAction, CreationForm, Skill, spec_added, spec_alignment_set,
    spec_background_set, spec_begun, spec_class_set, spec_has_skill, spec_label_of, spec_race_set,
    spec_score_set, spec_skill_toggled, spec_spent,
};
use crate::debug_screen::ABILITY_SHORT;
use crate::hash::{fnv1a64, spec_fnv1a64};
use crate::menu::{spec_words, words};
use crate::text::{push_decimal, push_digits, push_str, spec_decimal, views};
use vstd::utf8::encode_utf8;

verus! {

/// A list the panel chooses from with a menu.
#[derive(Debug, Clone, Copy, PartialEq, Eq, PartialOrd, Ord, Structural)]
pub enum Choice {
    /// The catalog's races.
    Race,
    /// The catalog's classes.
    Class,
    /// The catalog's backgrounds.
    Background,
    /// The nine alignments.
    Alignment,
}

/// Every choice, in the panel's order.
pub const CHOICES: [Choice; 4] = [Choice::Race, Choice::Class, Choice::Background, Choice::Alignment];

/// The display names a choice offers: the catalog's labels of its ids, or the nine
/// alignments as words.
pub open spec fn spec_options(choice: Choice, catalog: Catalog) -> Seq<Seq<char>> {
    let labels = |ids: Seq<String>| Seq::new(ids.len(), |i: int| spec_label_of(catalog.labels@, ids[i]@));
    match choice {
        Choice::Race => labels(catalog.races@),
        Choice::Class => labels(catalog.classes@),
        Choice::Background => labels(catalog.backgrounds@),
        Choice::Alignment => Seq::new(9, |i: int| spec_words(ALIGNMENTS[i].spec_name())),
    }
}

/// The display names of some ids.
fn labels(ids: &Vec<String>, catalog: &Catalog) -> (r: Vec<String>)
    ensures
        views(r@) == Seq::new(ids@.len(), |i: int| spec_label_of(catalog.labels@, ids@[i]@)),
{
    let mut out: Vec<String> = Vec::new();
    let mut i: usize = 0;
    while i < ids.len()
        invariant
            i <= ids@.len(),
            views(out@) == Seq::new(i as nat, |k: int| spec_label_of(catalog.labels@, ids@[k]@)),
        decreases ids@.len() - i,
    {
        let ghost before = out@;
        out.push(catalog.label(ids[i].as_str()).to_owned());
        proof {
            assert(views(out@) =~= views(before).push(spec_label_of(catalog.labels@, ids@[i as int]@)));
            assert(views(out@) =~= Seq::new((i + 1) as nat, |k: int| spec_label_of(catalog.labels@, ids@[k]@)));
        }
        i = i + 1;
    }
    out
}

impl Choice {
    /// The display names to choose from.
    pub fn options(self, catalog: &Catalog) -> (r: Vec<String>)
        ensures
            views(r@) == spec_options(self, *catalog),
    {
        match self {
            Choice::Race => labels(&catalog.races, catalog),
            Choice::Class => labels(&catalog.classes, catalog),
            Choice::Background => labels(&catalog.backgrounds, catalog),
            Choice::Alignment => {
                let mut out: Vec<String> = Vec::new();
                let mut i: usize = 0;
                while i < 9
                    invariant
                        i <= 9,
                        views(out@) == Seq::new(i as nat, |k: int| spec_words(ALIGNMENTS[k].spec_name())),
                    decreases 9 - i,
                {
                    let ghost before = out@;
                    out.push(words(ALIGNMENTS[i].name()));
                    proof {
                        assert(views(out@) =~= views(before).push(spec_words(ALIGNMENTS[i as int].spec_name())));
                        assert(views(out@) =~= Seq::new((i + 1) as nat, |k: int| spec_words(ALIGNMENTS[k].spec_name())));
                    }
                    i = i + 1;
                }
                out
            },
        }
    }

    /// The form's current index into `options`.
    pub fn current(self, form: &CreationForm) -> (r: usize)
        ensures
            r == match self {
                Choice::Race => form.race,
                Choice::Class => form.class,
                Choice::Background => form.background,
                Choice::Alignment => (form.alignment % 9) as usize,
            },
    {
        match self {
            Choice::Race => form.race,
            Choice::Class => form.class,
            Choice::Background => form.background,
            Choice::Alignment => form.alignment % 9,
        }
    }

    /// The row's label.
    pub fn label(self) -> (r: &'static str)
        ensures
            r@ == match self {
                Choice::Race => "Race"@,
                Choice::Class => "Class"@,
                Choice::Background => "Background"@,
                Choice::Alignment => "Alignment"@,
            },
    {
        match self {
            Choice::Race => "Race",
            Choice::Class => "Class",
            Choice::Background => "Background",
            Choice::Alignment => "Alignment",
        }
    }
}

/// One control of the panel. Tests and the sync system find entities by it.
#[derive(Debug, Clone, Copy, PartialEq, Eq, PartialOrd, Ord, Default, Structural)]
pub enum PanelId {
    /// The name's text input.
    #[default]
    Name,
    /// A choice's menu button; its caption shows the current option.
    Menu(Choice),
    /// One option in a choice's menu.
    Pick(Choice, usize),
    /// An ability's number input, by index into the six abilities.
    Score(usize),
    /// The same ability's slider.
    ScoreSlider(usize),
    /// A skill's checkbox, by index into the class's list.
    Skill(usize),
    /// Add the draft to the party.
    Add,
    /// Start exploring.
    Begin,
    /// Abandon the new game.
    Back,
    /// The font menu's button.
    FontMenu,
    /// One font in the font menu.
    FontPick(usize),
    /// The interface scale slider.
    UiScale,
}

/// A slider's position as the whole numbers the panel reads from it: the value rounded, and
/// the value times ten rounded; both absent when the slider reports not a number.
#[derive(Debug, Clone, Copy, PartialEq, Eq, Structural)]
pub struct Slide {
    /// The value, rounded to a whole number.
    pub units: Option<i64>,
    /// Ten times the value, rounded to a whole number.
    pub tenths: Option<i64>,
}

/// What a control reported.
#[derive(Debug, Clone, PartialEq, Eq)]
pub enum Payload {
    /// A button or a menu item was activated.
    Activate,
    /// A text input's content.
    Text(String),
    /// A number input's value.
    Number(i64),
    /// A slider's value.
    Slide(Slide),
    /// A checkbox's new state.
    Flag(bool),
}

/// What the panel asks of the app.
#[derive(Debug, Clone, PartialEq, Eq)]
pub enum PanelAction {
    /// What the canvas screen would ask.
    Creation(CreationAction),
    /// Use this font, by index into the app's list.
    Font(usize),
    /// Scale the interface, in tenths (10 is the engine's 1.0).
    UiScale(u8),
}

/// The smallest interface scale, in tenths.
pub const SCALE_MIN: u8 = 10;
/// The largest interface scale, in tenths.
pub const SCALE_MAX: u8 = 30;

/// A score as a number input or a slider sets it: a value equal to the form's is dropped.
pub open spec fn spec_score_input(a: CreationForm, b: CreationForm, ability: int, value: int, catalog: Catalog) -> bool {
    if 0 <= ability < 6 && a.scores[ability] == value {
        b == a
    } else {
        spec_score_set(a, b, ability, value, catalog)
    }
}

/// Whether a report buys a score other than the one the form holds, where point buy's
/// limits are read.
pub open spec fn spec_buys_score(id: PanelId, payload: Payload, form: CreationForm) -> bool {
    match (id, payload) {
        (PanelId::Score(ability), Payload::Number(value)) => ability < 6 && form.scores[ability as int] != value,
        (PanelId::ScoreSlider(ability), Payload::Slide(slide)) => match slide.units {
            Some(value) => ability < 6 && form.scores[ability as int] != value,
            None => false,
        },
        _ => false,
    }
}

/// A choice's option picked from its menu.
pub open spec fn spec_picked(a: CreationForm, b: CreationForm, choice: Choice, index: int, catalog: Catalog) -> bool {
    match choice {
        Choice::Race => spec_race_set(a, b, index, catalog),
        Choice::Class => spec_class_set(a, b, index, catalog),
        Choice::Background => spec_background_set(a, b, index, catalog),
        Choice::Alignment => spec_alignment_set(a, b, index),
    }
}

/// What a form's answer becomes as the panel's.
pub open spec fn spec_as_panel(r: Option<CreationAction>) -> Option<PanelAction> {
    match r {
        Some(action) => Some(PanelAction::Creation(action)),
        None => None,
    }
}

/// The interface scale a slider asks for: its tenths held between the two limits.
pub open spec fn spec_scale(tenths: int) -> u8 {
    if tenths < SCALE_MIN {
        SCALE_MIN
    } else if tenths > SCALE_MAX {
        SCALE_MAX
    } else {
        tenths as u8
    }
}

/// What one control's report does, `b` the form after and `r` the answer: a changed name is
/// cut and set, a menu item picks its option, a number input or a slider buys a score (a
/// slider that reports not a number is refused), a checkbox whose state differs from the
/// pick toggles its skill, the buttons ask what the canvas screen's would, a font is asked
/// for by index and the scale slider asks for its tenths held inside the limits. Any other
/// report does nothing.
pub open spec fn spec_applied(
    a: CreationForm,
    b: CreationForm,
    r: Option<PanelAction>,
    id: PanelId,
    payload: Payload,
    catalog: Catalog,
    members: int,
) -> bool {
    let list = a.spec_skill_list(catalog).1;
    let unchanged = r is None && b == a;
    match (id, payload) {
        (PanelId::Name, Payload::Text(text)) => if text@ != a.name@ {
            &&& r is None
            &&& b.name@ == crate::creation_menu::spec_cut_name(text@)
            &&& b == (CreationForm { name: b.name, ..a })
        } else {
            unchanged
        },
        (PanelId::Pick(choice, index), Payload::Activate) => r is None && spec_picked(a, b, choice, index as int, catalog),
        (PanelId::Score(ability), Payload::Number(value)) => r is None && spec_score_input(a, b, ability as int, value as int, catalog),
        (PanelId::ScoreSlider(ability), Payload::Slide(slide)) => match slide.units {
            Some(value) => r is None && spec_score_input(a, b, ability as int, value as int, catalog),
            None => unchanged,
        },
        (PanelId::Skill(index), Payload::Flag(on)) => if index < list.len() && spec_has_skill(a.skills@, list[index as int]) != on {
            r is None && spec_skill_toggled(a, b, list[index as int], catalog)
        } else {
            unchanged
        },
        (PanelId::Add, Payload::Activate) => exists|inner: Option<CreationAction>|
            r == spec_as_panel(inner) && #[trigger] spec_added(a, b, inner, catalog, members),
        (PanelId::Begin, Payload::Activate) => exists|inner: Option<CreationAction>|
            r == spec_as_panel(inner) && #[trigger] spec_begun(a, b, inner, members),
        (PanelId::Back, Payload::Activate) => r == Some(PanelAction::Creation(CreationAction::Back)) && b == a,
        (PanelId::FontPick(index), Payload::Activate) => r == Some(PanelAction::Font(index)) && b == a,
        (PanelId::UiScale, Payload::Slide(slide)) => b == a && match slide.tenths {
            Some(tenths) => r == Some(PanelAction::UiScale(spec_scale(tenths as int))),
            None => r is None,
        },
        _ => unchanged,
    }
}

fn set_score(form: &mut CreationForm, ability: usize, value: i64, catalog: &Catalog)
    requires
        ability < 6 && old(form).scores[ability as int] != value ==> catalog.min <= catalog.max,
    ensures
        spec_score_input(*old(form), *final(form), ability as int, value as int, *catalog),
{
    if ability >= 6 || form.scores[ability] as i64 != value {
        form.set_score(ability, value, catalog);
    }
}

fn pick(form: &mut CreationForm, choice: Choice, index: usize, catalog: &Catalog)
    ensures
        spec_picked(*old(form), *final(form), choice, index as int, *catalog),
{
    match choice {
        Choice::Race => form.set_race(index, catalog),
        Choice::Class => form.set_class(index, catalog),
        Choice::Background => form.set_background(index, catalog),
        Choice::Alignment => form.set_alignment(index),
    }
}

fn as_panel(r: Option<CreationAction>) -> (p: Option<PanelAction>)
    ensures
        p == spec_as_panel(r),
{
    match r {
        Some(action) => Some(PanelAction::Creation(action)),
        None => None,
    }
}

/// Apply one control's report to the form. `members` is how many the party already has.
pub fn apply(
    id: PanelId,
    payload: &Payload,
    form: &mut CreationForm,
    catalog: &Catalog,
    members: usize,
) -> (r: Option<PanelAction>)
    requires
        spec_buys_score(id, *payload, *old(form)) ==> catalog.min <= catalog.max,
        id is Add && payload is Activate ==> catalog.wf(),
    ensures
        spec_applied(*old(form), *final(form), r, id, *payload, *catalog, members as int),
{
    match (id, payload) {
        (PanelId::Name, Payload::Text(text)) => {
            if !crate::creation_menu::same(text.as_str(), form.name.as_str()) {
                form.set_name(text.as_str());
            }
            None
        },
        (PanelId::Pick(choice, index), Payload::Activate) => {
            pick(form, choice, index, catalog);
            None
        },
        (PanelId::Score(ability), Payload::Number(value)) => {
            set_score(form, ability, *value, catalog);
            None
        },
        (PanelId::ScoreSlider(ability), Payload::Slide(slide)) => {
            if let Some(value) = slide.units {
                set_score(form, ability, value, catalog);
            }
            None
        },
        (PanelId::Skill(index), Payload::Flag(on)) => {
            let (_, list) = form.skill_list(catalog);
            if index < list.len() {
                let skill = list[index];
                proof {
                    crate::creation_menu::lemma_skill_at(form.skills@, skill);
                }
                let picked = crate::creation_menu::skill_at(form.skills.as_slice(), skill).is_some();
                if picked != *on {
                    form.toggle_skill(skill, catalog);
                }
            }
            None
        },
        (PanelId::Add, Payload::Activate) => {
            let inner = form.add(catalog, members);
            as_panel(inner)
        },
        (PanelId::Begin, Payload::Activate) => {
            let inner = form.begin(members);
            as_panel(inner)
        },
        (PanelId::Back, Payload::Activate) => Some(PanelAction::Creation(CreationAction::Back)),
        (PanelId::FontPick(index), Payload::Activate) => Some(PanelAction::Font(index)),
        (PanelId::UiScale, Payload::Slide(slide)) => match slide.tenths {
            Some(tenths) => {
                let held: u8 = if tenths < SCALE_MIN as i64 {
                    SCALE_MIN
                } else if tenths > SCALE_MAX as i64 {
                    SCALE_MAX
                } else {
                    tenths as u8
                };
                Some(PanelAction::UiScale(held))
            },
            None => None,
        },
        _ => None,
    }
}

/// What the panel shows that is not a control's own value.
#[derive(Debug, Default, PartialEq, Eq)]
pub struct PanelText {
    /// "2 of 6 members".
    pub heading: String,
    /// Per ability: "STR" and "cost 5".
    pub scores: Vec<(String, String)>,
    /// "Points left: 12 of 27".
    pub points: String,
    /// "Skills (pick 2)".
    pub skills: String,
    /// The last refusal, or empty.
    pub message: String,
}

/// The panel's labels for a form: the party's count, each ability's short name and cost, the
/// points left, the count of skills to pick and the last refusal.
pub fn text(form: &CreationForm, catalog: &Catalog, members: usize) -> (r: PanelText)
    requires
        catalog.wf(),
    ensures
        r.heading@ == spec_decimal(members as int) + " of "@ + spec_decimal(catalog.slots as int) + " members"@,
        r.scores@.len() == 6,
        forall|i: int| 0 <= i < 6 ==> (#[trigger] r.scores@[i]).0@ == ABILITY_SHORT[i]@ && r.scores@[i].1@
            == "cost "@ + spec_decimal(catalog.spec_cost(form.scores[i])),
        r.points@ == "Points left: "@ + spec_decimal(catalog.budget - spec_spent(form.scores, *catalog)) + " of "@
            + spec_decimal(catalog.budget as int),
        r.skills@ == "Skills (pick "@ + spec_decimal(form.spec_skill_list(*catalog).0 as int) + ")"@,
        r.message@ == form.message@,
{
    let mut heading = String::new();
    push_digits(&mut heading, members as u64);
    push_str(&mut heading, " of ");
    push_digits(&mut heading, catalog.slots as u64);
    push_str(&mut heading, " members");
    let mut scores: Vec<(String, String)> = Vec::new();
    let mut i: usize = 0;
    while i < 6
        invariant
            i <= 6,
            scores@.len() == i,
            forall|k: int| 0 <= k < i ==> (#[trigger] scores@[k]).0@ == ABILITY_SHORT[k]@ && scores@[k].1@
                == "cost "@ + spec_decimal(catalog.spec_cost(form.scores[k])),
        decreases 6 - i,
    {
        let mut cost = "cost ".to_owned();
        push_decimal(&mut cost, catalog.cost(form.scores[i]));
        scores.push((ABILITY_SHORT[i].to_owned(), cost));
        i = i + 1;
    }
    let mut points = "Points left: ".to_owned();
    push_decimal(&mut points, catalog.budget - form.spent(catalog));
    push_str(&mut points, " of ");
    push_decimal(&mut points, catalog.budget);
    let mut skills = "Skills (pick ".to_owned();
    push_digits(&mut skills, form.skill_list(catalog).0 as u64);
    push_str(&mut skills, ")");
    PanelText { heading, scores, points, skills, message: form.message.clone() }
}

/// The bytes of some items, each ended by a zero.
pub open spec fn spec_item_bytes(items: Seq<Seq<char>>) -> Seq<u8>
    decreases items.len(),
{
    if items.len() == 0 {
        Seq::empty()
    } else {
        spec_item_bytes(items.drop_last()) + encode_utf8(items.last()) + seq![0u8]
    }
}

/// The bytes of a list: its items', then a one.
pub open spec fn spec_list_bytes(items: Seq<Seq<char>>) -> Seq<u8> {
    spec_item_bytes(items) + seq![1u8]
}

/// What the panel's entity tree depends on, as bytes: the four choices' options, the class's
/// skill list and the roster.
pub open spec fn spec_shape_bytes(form: CreationForm, catalog: Catalog, roster: Seq<String>) -> Seq<u8> {
    let skills = form.spec_skill_list(catalog).1;
    spec_list_bytes(spec_options(Choice::Race, catalog)) + spec_list_bytes(spec_options(Choice::Class, catalog))
        + spec_list_bytes(spec_options(Choice::Background, catalog)) + spec_list_bytes(
        spec_options(Choice::Alignment, catalog),
    ) + spec_list_bytes(Seq::new(skills.len(), |i: int| skills[i].spec_name())) + spec_list_bytes(views(roster))
}

/// Append a list's bytes.
fn push_list(bytes: &mut Vec<u8>, items: &[String])
    ensures
        final(bytes)@ == old(bytes)@ + spec_list_bytes(views(items@)),
{
    let ghost start = bytes@;
    let mut i: usize = 0;
    proof {
        assert(views(items@).take(0) =~= Seq::<Seq<char>>::empty());
        assert(start + Seq::<u8>::empty() =~= start);
    }
    while i < items.len()
        invariant
            i <= items@.len(),
            start == old(bytes)@,
            bytes@ == start + spec_item_bytes(views(items@).take(i as int)),
        decreases items@.len() - i,
    {
        let item = items[i].as_str().as_bytes();
        let ghost before = bytes@;
        bytes.extend_from_slice(item);
        assert(bytes@ =~= before + item@);
        bytes.push(0);
        proof {
            let t = views(items@).take(i + 1);
            assert(t.drop_last() =~= views(items@).take(i as int));
            assert(t.last() == items@[i as int]@);
            assert(bytes@ =~= start + spec_item_bytes(t));
        }
        i = i + 1;
    }
    bytes.push(1);
    proof {
        assert(views(items@).take(items@.len() as int) =~= views(items@));
        assert(bytes@ =~= old(bytes)@ + spec_list_bytes(views(items@)));
    }
}

/// What the panel's entity tree depends on: the lists behind the menus, the class's skill
/// list and the roster. When it changes the panel is spawned again; values alone are synced.
pub fn shape(form: &CreationForm, catalog: &Catalog, roster: &[String]) -> (r: u64)
    ensures
        r == spec_fnv1a64(spec_shape_bytes(*form, *catalog, roster@)),
{
    let mut bytes: Vec<u8> = Vec::new();
    let race = Choice::Race.options(catalog);
    push_list(&mut bytes, race.as_slice());
    let class = Choice::Class.options(catalog);
    push_list(&mut bytes, class.as_slice());
    let background = Choice::Background.options(catalog);
    push_list(&mut bytes, background.as_slice());
    let alignment = Choice::Alignment.options(catalog);
    push_list(&mut bytes, alignment.as_slice());
    let (_, skills) = form.skill_list(catalog);
    let mut names: Vec<String> = Vec::new();
    let mut i: usize = 0;
    while i < skills.len()
        invariant
            i <= skills@.len(),
            views(names@) == Seq::new(i as nat, |k: int| skills@[k].spec_name()),
        decreases skills@.len() - i,
    {
        let ghost before = names@;
        names.push(skills[i].name().to_owned());
        proof {
            assert(views(names@) =~= views(before).push(skills@[i as int].spec_name()));
            assert(views(names@) =~= Seq::new((i + 1) as nat, |k: int| skills@[k].spec_name()));
        }
        i = i + 1;
    }
    push_list(&mut bytes, names.as_slice());
    push_list(&mut bytes, roster);
    proof {
        assert(bytes@ =~= spec_shape_bytes(*form, *catalog, roster@));
    }
    fnv1a64(bytes.as_slice())
}

/// Whether a report only repeats what the form holds: the name it has, a score it has, a
/// checkbox in the state of its pick, the class it has, or a menu button opened.
pub open spec fn spec_echo(id: PanelId, payload: Payload, form: CreationForm, catalog: Catalog) -> bool {
    let list = form.spec_skill_list(catalog).1;
    match (id, payload) {
        (PanelId::Name, Payload::Text(text)) => text@ == form.name@,
        (PanelId::Score(ability), Payload::Number(value)) => ability < 6 && form.scores[ability as int] == value,
        (PanelId::ScoreSlider(ability), Payload::Slide(slide)) => ability < 6 && slide.units == Some(
            form.scores[ability as int] as i64,
        ),
        (PanelId::Skill(index), Payload::Flag(on)) => index < list.len() ==> on == spec_has_skill(
            form.skills@,
            list[index as int],
        ),
        (PanelId::Pick(Choice::Class, index), Payload::Activate) => index == form.class,
        (PanelId::Menu(_), _) => true,
        _ => false,
    }
}

/// A report that changes nothing changes nothing: what a text or number input sends again
/// when it loses focus, a checkbox's echo, choosing the class the form has, or opening a
/// menu, leaves the form as it was and asks nothing.
pub proof fn lemma_echo_changes_nothing(
    a: CreationForm,
    b: CreationForm,
    r: Option<PanelAction>,
    id: PanelId,
    payload: Payload,
    catalog: Catalog,
    members: int,
)
    requires
        spec_applied(a, b, r, id, payload, catalog, members),
        spec_echo(id, payload, a, catalog),
    ensures
        b == a,
        r is None,
{
}

/// A value is not a shape: two forms with the same class give the panel the same shape,
/// whatever their names, scores, picks and messages.
pub proof fn lemma_shape_follows_the_class(a: CreationForm, b: CreationForm, catalog: Catalog, roster: Seq<String>)
    requires
        a.class == b.class,
    ensures
        spec_shape_bytes(a, catalog, roster) == spec_shape_bytes(b, catalog, roster),
{
}

} // verus!
