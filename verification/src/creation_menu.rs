//! Party creation's model: what the loaded packs offer (`Catalog`) and one member being
//! drafted (`CreationForm`). The rules live in the named methods (`set_score`,
//! `toggle_skill`, `add`, ...), which the screen's keys call.

use vstd::prelude::*;
use crate::debug_screen::ABILITY_SHORT;
use crate::menu::{HELP, MenuKey, cycle, mark, spec_cycle, spec_mark, spec_trim, spec_words, words};
use crate::text::{
    char_len, pop_char, push_char, push_decimal, push_digits, push_join, push_padded_left, push_str, spec_decimal, spec_join,
    spec_pad_left, views,
};
use vstd::utf8::encode_utf8;

verus! {

/// A skill of the SRD, in its order.
#[derive(Debug, Clone, Copy, PartialEq, Eq, Structural)]
pub enum Skill {
    /// DEX.
    Acrobatics,
    /// WIS.
    AnimalHandling,
    /// INT.
    Arcana,
    /// STR.
    Athletics,
    /// CHA.
    Deception,
    /// INT.
    History,
    /// WIS.
    Insight,
    /// CHA.
    Intimidation,
    /// INT.
    Investigation,
    /// WIS.
    Medicine,
    /// INT.
    Nature,
    /// WIS.
    Perception,
    /// CHA.
    Performance,
    /// CHA.
    Persuasion,
    /// INT.
    Religion,
    /// DEX.
    SleightOfHand,
    /// DEX.
    Stealth,
    /// WIS.
    Survival,
}

impl Skill {
    /// The skill's name as one camel-case word.
    pub open spec fn spec_name(self) -> Seq<char> {
        match self {
            Skill::Acrobatics => "Acrobatics"@,
            Skill::AnimalHandling => "AnimalHandling"@,
            Skill::Arcana => "Arcana"@,
            Skill::Athletics => "Athletics"@,
            Skill::Deception => "Deception"@,
            Skill::History => "History"@,
            Skill::Insight => "Insight"@,
            Skill::Intimidation => "Intimidation"@,
            Skill::Investigation => "Investigation"@,
            Skill::Medicine => "Medicine"@,
            Skill::Nature => "Nature"@,
            Skill::Perception => "Perception"@,
            Skill::Performance => "Performance"@,
            Skill::Persuasion => "Persuasion"@,
            Skill::Religion => "Religion"@,
            Skill::SleightOfHand => "SleightOfHand"@,
            Skill::Stealth => "Stealth"@,
            Skill::Survival => "Survival"@,
        }
    }

    /// A skill's name is short.
    pub proof fn lemma_name_len(self)
        ensures
            self.spec_name().len() <= 14,
    {
        reveal_strlit("Acrobatics");
        reveal_strlit("AnimalHandling");
        reveal_strlit("Arcana");
        reveal_strlit("Athletics");
        reveal_strlit("Deception");
        reveal_strlit("History");
        reveal_strlit("Insight");
        reveal_strlit("Intimidation");
        reveal_strlit("Investigation");
        reveal_strlit("Medicine");
        reveal_strlit("Nature");
        reveal_strlit("Perception");
        reveal_strlit("Performance");
        reveal_strlit("Persuasion");
        reveal_strlit("Religion");
        reveal_strlit("SleightOfHand");
        reveal_strlit("Stealth");
        reveal_strlit("Survival");
    }

    /// The skill's name as one camel-case word.
    pub fn name(self) -> (r: &'static str)
        ensures
            r@ == self.spec_name(),
    {
        match self {
            Skill::Acrobatics => "Acrobatics",
            Skill::AnimalHandling => "AnimalHandling",
            Skill::Arcana => "Arcana",
            Skill::Athletics => "Athletics",
            Skill::Deception => "Deception",
            Skill::History => "History",
            Skill::Insight => "Insight",
            Skill::Intimidation => "Intimidation",
            Skill::Investigation => "Investigation",
            Skill::Medicine => "Medicine",
            Skill::Nature => "Nature",
            Skill::Perception => "Perception",
            Skill::Performance => "Performance",
            Skill::Persuasion => "Persuasion",
            Skill::Religion => "Religion",
            Skill::SleightOfHand => "SleightOfHand",
            Skill::Stealth => "Stealth",
            Skill::Survival => "Survival",
        }
    }
}

/// An alignment.
#[derive(Debug, Clone, Copy, PartialEq, Eq, Structural)]
pub enum Alignment {
    /// LG.
    LawfulGood,
    /// NG.
    NeutralGood,
    /// CG.
    ChaoticGood,
    /// LN.
    LawfulNeutral,
    /// N.
    Neutral,
    /// CN.
    ChaoticNeutral,
    /// LE.
    LawfulEvil,
    /// NE.
    NeutralEvil,
    /// CE.
    ChaoticEvil,
}

/// The nine alignments, in the order the form cycles them.
pub const ALIGNMENTS: [Alignment; 9] = [
    Alignment::LawfulGood,
    Alignment::NeutralGood,
    Alignment::ChaoticGood,
    Alignment::LawfulNeutral,
    Alignment::Neutral,
    Alignment::ChaoticNeutral,
    Alignment::LawfulEvil,
    Alignment::NeutralEvil,
    Alignment::ChaoticEvil,
];

impl Alignment {
    /// The alignment's name as one camel-case word.
    pub open spec fn spec_name(self) -> Seq<char> {
        match self {
            Alignment::LawfulGood => "LawfulGood"@,
            Alignment::NeutralGood => "NeutralGood"@,
            Alignment::ChaoticGood => "ChaoticGood"@,
            Alignment::LawfulNeutral => "LawfulNeutral"@,
            Alignment::Neutral => "Neutral"@,
            Alignment::ChaoticNeutral => "ChaoticNeutral"@,
            Alignment::LawfulEvil => "LawfulEvil"@,
            Alignment::NeutralEvil => "NeutralEvil"@,
            Alignment::ChaoticEvil => "ChaoticEvil"@,
        }
    }

    /// An alignment's name is short.
    pub proof fn lemma_name_len(self)
        ensures
            self.spec_name().len() <= 14,
    {
        reveal_strlit("LawfulGood");
        reveal_strlit("NeutralGood");
        reveal_strlit("ChaoticGood");
        reveal_strlit("LawfulNeutral");
        reveal_strlit("Neutral");
        reveal_strlit("ChaoticNeutral");
        reveal_strlit("LawfulEvil");
        reveal_strlit("NeutralEvil");
        reveal_strlit("ChaoticEvil");
    }

    /// The alignment's name as one camel-case word.
    pub fn name(self) -> (r: &'static str)
        ensures
            r@ == self.spec_name(),
    {
        match self {
            Alignment::LawfulGood => "LawfulGood",
            Alignment::NeutralGood => "NeutralGood",
            Alignment::ChaoticGood => "ChaoticGood",
            Alignment::LawfulNeutral => "LawfulNeutral",
            Alignment::Neutral => "Neutral",
            Alignment::ChaoticNeutral => "ChaoticNeutral",
            Alignment::LawfulEvil => "LawfulEvil",
            Alignment::NeutralEvil => "NeutralEvil",
            Alignment::ChaoticEvil => "ChaoticEvil",
        }
    }
}

/// What creation can choose from, lifted out of the loaded data once.
#[derive(Debug, Clone, Default, PartialEq, Eq)]
pub struct Catalog {
    /// Race ids.
    pub races: Vec<String>,
    /// Class ids.
    pub classes: Vec<String>,
    /// Background ids.
    pub backgrounds: Vec<String>,
    /// Per class id: how many skills to pick and from which; the first entry for an id counts.
    pub class_skills: Vec<ClassSkills>,
    /// Display names by id; the first entry for an id counts.
    pub labels: Vec<Label>,
    /// Point budget.
    pub budget: i64,
    /// Lowest bought score.
    pub min: u8,
    /// Highest bought score.
    pub max: u8,
    /// Cost by `score - min`.
    pub costs: Vec<i64>,
    /// Party slots.
    pub slots: usize,
}

/// How many skills a class picks, and from which.
#[derive(Debug, Clone, PartialEq, Eq)]
pub struct ClassSkills {
    /// The class id.
    pub class: String,
    /// How many to pick.
    pub choose: u8,
    /// The list to pick from.
    pub from: Vec<Skill>,
}

/// A display name for an id.
#[derive(Debug, Clone, PartialEq, Eq)]
pub struct Label {
    /// The id.
    pub id: String,
    /// Its display name.
    pub name: String,
}

/// The display name of an id: the first label for it, else the id itself.
pub open spec fn spec_label_of(labels: Seq<Label>, id: Seq<char>) -> Seq<char>
    decreases labels.len(),
{
    if labels.len() == 0 {
        id
    } else if labels[0].id@ == id {
        labels[0].name@
    } else {
        spec_label_of(labels.drop_first(), id)
    }
}

/// The skills entry of a class id: the first for it, else none to pick.
pub open spec fn spec_skills_of(entries: Seq<ClassSkills>, class: Seq<char>) -> (u8, Seq<Skill>)
    decreases entries.len(),
{
    if entries.len() == 0 {
        (0, Seq::empty())
    } else if entries[0].class@ == class {
        (entries[0].choose, entries[0].from@)
    } else {
        spec_skills_of(entries.drop_first(), class)
    }
}

proof fn lemma_label_skip(labels: Seq<Label>, id: Seq<char>, i: int)
    requires
        0 <= i <= labels.len(),
        forall|k: int| 0 <= k < i ==> #[trigger] labels[k].id@ != id,
    ensures
        spec_label_of(labels, id) == spec_label_of(labels.skip(i), id),
    decreases i,
{
    if i > 0 {
        lemma_label_skip(labels.drop_first(), id, i - 1);
        assert(labels.drop_first().skip(i - 1) =~= labels.skip(i));
    } else {
        assert(labels.skip(0) =~= labels);
    }
}

proof fn lemma_skills_skip(entries: Seq<ClassSkills>, class: Seq<char>, i: int)
    requires
        0 <= i <= entries.len(),
        forall|k: int| 0 <= k < i ==> #[trigger] entries[k].class@ != class,
    ensures
        spec_skills_of(entries, class) == spec_skills_of(entries.skip(i), class),
    decreases i,
{
    if i > 0 {
        lemma_skills_skip(entries.drop_first(), class, i - 1);
        assert(entries.drop_first().skip(i - 1) =~= entries.skip(i));
    } else {
        assert(entries.skip(0) =~= entries);
    }
}

/// The `i`th id of a list, or nothing past it.
pub open spec fn spec_pick(list: Seq<String>, i: int) -> Seq<char> {
    if 0 <= i < list.len() {
        list[i]@
    } else {
        Seq::empty()
    }
}

impl Catalog {
    /// The costs and the budget are small enough that six costs and the budget add up in
    /// `i64`: each within an eighth of its range.
    pub open spec fn wf(&self) -> bool {
        &&& -0x0fff_ffff_ffff_ffff <= self.budget <= 0x0fff_ffff_ffff_ffff
        &&& forall|i: int|
            0 <= i < self.costs@.len() ==> -0x0fff_ffff_ffff_ffff <= #[trigger] self.costs@[i] <= 0x0fff_ffff_ffff_ffff
    }

    /// The display name of a race, class, or background id.
    pub fn label<'a>(&'a self, id: &'a str) -> (r: &'a str)
        ensures
            r@ == spec_label_of(self.labels@, id@),
    {
        let mut i: usize = 0;
        while i < self.labels.len()
            invariant
                i <= self.labels@.len(),
                forall|k: int| 0 <= k < i ==> #[trigger] self.labels@[k].id@ != id@,
            decreases self.labels@.len() - i,
        {
            if same(self.labels[i].id.as_str(), id) {
                proof {
                    lemma_label_skip(self.labels@, id@, i as int);
                }
                return self.labels[i].name.as_str();
            }
            i = i + 1;
        }
        proof {
            lemma_label_skip(self.labels@, id@, i as int);
        }
        id
    }

    /// The cost of a score: by how far it is above the minimum, nothing past the table.
    pub open spec fn spec_cost(&self, score: u8) -> int {
        let at = if score >= self.min {
            score - self.min
        } else {
            0
        };
        if at < self.costs@.len() {
            self.costs@[at] as int
        } else {
            0
        }
    }

    pub(crate) fn cost(&self, score: u8) -> (r: i64)
        ensures
            r == self.spec_cost(score),
    {
        let at: usize = if score >= self.min {
            (score - self.min) as usize
        } else {
            0
        };
        if at < self.costs.len() {
            self.costs[at]
        } else {
            0
        }
    }
}

/// Whether two string slices hold the same text.
pub(crate) fn same(a: &str, b: &str) -> (r: bool)
    ensures
        r == (a@ == b@),
{
    let n = a.unicode_len();
    if n != b.unicode_len() {
        return false;
    }
    let mut i: usize = 0;
    while i < n
        invariant
            i <= n,
            n == a@.len(),
            n == b@.len(),
            forall|k: int| 0 <= k < i ==> a@[k] == b@[k],
        decreases n - i,
    {
        if a.get_char(i) != b.get_char(i) {
            return false;
        }
        i = i + 1;
    }
    assert(a@ =~= b@);
    true
}

/// A member as drafted, for the simulation to create.
#[derive(Debug, Clone, PartialEq, Eq)]
pub struct Draft {
    /// The name, without white space at either end.
    pub name: String,
    /// The race's id.
    pub race: String,
    /// The class's id.
    pub class: String,
    /// The background's id.
    pub background: String,
    /// The alignment.
    pub alignment: Alignment,
    /// The six bought scores.
    pub scores: [u8; 6],
    /// The picked skills.
    pub skills: Vec<Skill>,
}

/// What the creation screen asks for.
#[derive(Debug, Clone, PartialEq, Eq)]
pub enum CreationAction {
    /// Add this draft to the party.
    Add(Draft),
    /// Start exploring.
    Begin,
    /// Abandon the new game.
    Back,
}

/// One member being drafted, and the cursor over the form.
#[derive(Debug, Clone, Default, PartialEq, Eq)]
pub struct CreationForm {
    /// Typed name.
    pub name: String,
    /// Index into the catalog's races.
    pub race: usize,
    /// Index into the catalog's classes.
    pub class: usize,
    /// Index into the catalog's backgrounds.
    pub background: usize,
    /// Index into the nine alignments.
    pub alignment: usize,
    /// Bought scores.
    pub scores: [u8; 6],
    /// Picked skills.
    pub skills: Vec<Skill>,
    /// Which skill of the class list Left/Right stands on.
    pub skill_cursor: usize,
    /// Selected row.
    pub cursor: usize,
    /// Feedback from the last attempt.
    pub message: String,
}

/// The longest name, in bytes.
pub const NAME_LIMIT: usize = 24;
/// Row index of the name field.
pub const ROW_NAME: usize = 0;
/// Row index of the race choice.
pub const ROW_RACE: usize = 1;
/// Row index of the class choice.
pub const ROW_CLASS: usize = 2;
/// Row index of the background choice.
pub const ROW_BACKGROUND: usize = 3;
/// Row index of the alignment choice.
pub const ROW_ALIGNMENT: usize = 4;
/// Row index of the first score; the six scores follow.
pub const ROW_SCORES: usize = 5;
/// Row index of the skill picks.
pub const ROW_SKILLS: usize = 11;
/// Row index of the Add member button.
pub const ROW_ADD: usize = 12;
/// Row index of the Begin button.
pub const ROW_BEGIN: usize = 13;
/// Rows the cursor cycles through.
pub const ROWS: usize = 14;

/// The longest prefix of a name whose UTF-8 encoding fits `NAME_LIMIT` bytes.
pub open spec fn spec_cut_name(name: Seq<char>) -> Seq<char> {
    name.take(spec_cut_len(name, name.len() as int))
}

/// How many characters of the first `n` fit `NAME_LIMIT` bytes.
pub open spec fn spec_cut_len(name: Seq<char>, n: int) -> int
    decreases n,
{
    if n <= 0 {
        0
    } else if encode_utf8(name.take(n)).len() <= NAME_LIMIT {
        n
    } else {
        spec_cut_len(name, n - 1)
    }
}

/// A number between two texts.
fn text_with_number(before: &str, n: i64, after: &str) -> (r: String)
    ensures
        r@ == before@ + spec_decimal(n as int) + after@,
{
    let mut out = before.to_owned();
    push_decimal(&mut out, n);
    push_str(&mut out, after);
    out
}

/// The `i`th id of a list, or an empty text past it.
fn pick(list: &Vec<String>, i: usize) -> (r: String)
    ensures
        r@ == spec_pick(list@, i as int),
{
    if i < list.len() {
        list[i].clone()
    } else {
        String::new()
    }
}

/// Whether a skill is among some.
pub open spec fn spec_has_skill(skills: Seq<Skill>, skill: Skill) -> bool {
    exists|k: int| 0 <= k < skills.len() && skills[k] == skill
}

/// The first place of a skill among some, if any.
pub open spec fn spec_skill_at(skills: Seq<Skill>, skill: Skill) -> Option<int>
    decreases skills.len(),
{
    if skills.len() == 0 {
        None
    } else if skills[0] == skill {
        Some(0)
    } else {
        match spec_skill_at(skills.drop_first(), skill) {
            Some(i) => Some(i + 1),
            None => None,
        }
    }
}

pub(crate) proof fn lemma_skill_at(skills: Seq<Skill>, skill: Skill)
    ensures
        spec_skill_at(skills, skill) matches Some(i) ==> 0 <= i < skills.len() && skills[i] == skill,
        spec_skill_at(skills, skill) is None ==> !spec_has_skill(skills, skill),
        spec_has_skill(skills, skill) ==> spec_skill_at(skills, skill) is Some,
    decreases skills.len(),
{
    if skills.len() > 0 {
        lemma_skill_at(skills.drop_first(), skill);
        if skills[0] != skill {
            if spec_has_skill(skills, skill) {
                let k = choose|k: int| 0 <= k < skills.len() && skills[k] == skill;
                assert(skills.drop_first()[k - 1] == skill);
            }
            if spec_has_skill(skills.drop_first(), skill) {
                let k = choose|k: int| 0 <= k < skills.drop_first().len() && skills.drop_first()[k] == skill;
                assert(skills[k + 1] == skill);
            }
        }
    }
}

pub(crate) fn skill_at(skills: &[Skill], skill: Skill) -> (r: Option<usize>)
    ensures
        match r {
            Some(i) => spec_skill_at(skills@, skill) == Some(i as int),
            None => spec_skill_at(skills@, skill) is None,
        },
{
    let mut i: usize = 0;
    proof {
        assert(skills@.skip(0) =~= skills@);
    }
    while i < skills.len()
        invariant
            i <= skills@.len(),
            spec_skill_at(skills@, skill) == (match spec_skill_at(skills@.skip(i as int), skill) {
                Some(j) => Some(j + i),
                None => None,
            }),
        decreases skills@.len() - i,
    {
        proof {
            assert(skills@.skip(i as int).drop_first() =~= skills@.skip(i + 1));
        }
        if skills[i] == skill {
            return Some(i);
        }
        i = i + 1;
    }
    proof {
        assert(skills@.skip(i as int).len() == 0);
    }
    None
}

/// Whether `d` is the draft of a form: the name trimmed, the chosen ids (an empty id past a
/// list), the alignment, the scores and the picks.
pub open spec fn spec_is_draft(d: Draft, form: CreationForm, catalog: Catalog) -> bool {
    &&& d.name@ == spec_trim(form.name@)
    &&& d.race@ == spec_pick(catalog.races@, form.race as int)
    &&& d.class@ == spec_pick(catalog.classes@, form.class as int)
    &&& d.background@ == spec_pick(catalog.backgrounds@, form.background as int)
    &&& d.alignment == ALIGNMENTS[(form.alignment % 9) as int]
    &&& d.scores == form.scores
    &&& d.skills@ == form.skills@
}

/// The sum of the six scores' costs.
pub open spec fn spec_spent(scores: [u8; 6], catalog: Catalog) -> int {
    catalog.spec_cost(scores[0]) + catalog.spec_cost(scores[1]) + catalog.spec_cost(scores[2])
        + catalog.spec_cost(scores[3]) + catalog.spec_cost(scores[4]) + catalog.spec_cost(scores[5])
}

/// A score bought at `value`, held inside what point buy sells.
pub open spec fn spec_held(value: int, catalog: Catalog) -> u8 {
    if value < catalog.min {
        catalog.min
    } else if value > catalog.max {
        catalog.max
    } else {
        value as u8
    }
}

/// `b` is `a` with the race chosen: an index past the catalog's races leaves it.
pub open spec fn spec_race_set(a: CreationForm, b: CreationForm, index: int, catalog: Catalog) -> bool {
    if index < catalog.races@.len() {
        b == (CreationForm { race: index as usize, ..a })
    } else {
        b == a
    }
}

/// `b` is `a` with the class chosen: a different class within the catalog drops the picks
/// and puts the skill cursor back on the first; any other index leaves the form.
pub open spec fn spec_class_set(a: CreationForm, b: CreationForm, index: int, catalog: Catalog) -> bool {
    if index < catalog.classes@.len() && index != a.class {
        &&& b.skills@ == Seq::<Skill>::empty()
        &&& b == (CreationForm { class: index as usize, skills: b.skills, skill_cursor: 0, ..a })
    } else {
        b == a
    }
}

/// `b` is `a` with the background chosen: an index past the catalog's backgrounds leaves it.
pub open spec fn spec_background_set(a: CreationForm, b: CreationForm, index: int, catalog: Catalog) -> bool {
    if index < catalog.backgrounds@.len() {
        b == (CreationForm { background: index as usize, ..a })
    } else {
        b == a
    }
}

/// `b` is `a` with the alignment chosen: an index past the nine leaves it.
pub open spec fn spec_alignment_set(a: CreationForm, b: CreationForm, index: int) -> bool {
    if index < 9 {
        b == (CreationForm { alignment: index as usize, ..a })
    } else {
        b == a
    }
}

/// `b` is `a` with one score bought at `value`, held inside what point buy sells; an ability
/// past the six leaves the form.
pub open spec fn spec_score_set(a: CreationForm, b: CreationForm, ability: int, value: int, catalog: Catalog) -> bool {
    if 0 <= ability < 6 {
        &&& b.scores@ == a.scores@.update(ability, spec_held(value, catalog))
        &&& b == (CreationForm { scores: b.scores, ..a })
    } else {
        b == a
    }
}

/// The refusal of a pick past the class's count.
pub open spec fn spec_picks_message(choose: u8) -> Seq<char> {
    "This class picks "@ + spec_decimal(choose as int) + " skills"@
}

/// `b` is `a` with a skill of the class's list picked or let go: a skill off the list leaves
/// the form, a picked one goes, another is added while the count allows and refused with a
/// message past it.
pub open spec fn spec_skill_toggled(a: CreationForm, b: CreationForm, skill: Skill, catalog: Catalog) -> bool {
    let (choose, list) = a.spec_skill_list(catalog);
    if !spec_has_skill(list, skill) {
        b == a
    } else {
        match spec_skill_at(a.skills@, skill) {
            Some(at) => {
                &&& b.skills@ == a.skills@.remove(at)
                &&& b == (CreationForm { skills: b.skills, ..a })
            },
            None => if a.skills@.len() < choose {
                &&& b.skills@ == a.skills@.push(skill)
                &&& b == (CreationForm { skills: b.skills, ..a })
            } else {
                &&& b.message@ == spec_picks_message(choose)
                &&& b == (CreationForm { message: b.message, ..a })
            },
        }
    }
}

/// What asking to add the form's draft gives, `b` the form after and `r` the answer: a full
/// party, a blank name, an overspent budget and a wrong count of picks are refused in that
/// order with a message; else the message clears and the draft is the answer.
pub open spec fn spec_added(a: CreationForm, b: CreationForm, r: Option<CreationAction>, catalog: Catalog, members: int) -> bool {
    let (choose, _) = a.spec_skill_list(catalog);
    let spent = spec_spent(a.scores, catalog);
    let refused = |message: Seq<char>| {
        &&& r is None
        &&& b.message@ == message
        &&& b == (CreationForm { message: b.message, ..a })
    };
    if members >= catalog.slots {
        refused("The party is full"@)
    } else if spec_trim(a.name@).len() == 0 {
        refused("Give the character a name"@)
    } else if spent > catalog.budget {
        refused(spec_decimal(spent) + " points spent of "@ + spec_decimal(catalog.budget as int))
    } else if a.skills@.len() != choose {
        refused("Pick "@ + spec_decimal(choose as int) + " skills"@)
    } else {
        &&& b.message@ == Seq::<char>::empty()
        &&& b == (CreationForm { message: b.message, ..a })
        &&& r matches Some(CreationAction::Add(d)) && spec_is_draft(d, a, catalog)
    }
}

/// What asking to begin gives: an empty party is refused with a message.
pub open spec fn spec_begun(a: CreationForm, b: CreationForm, r: Option<CreationAction>, members: int) -> bool {
    if members == 0 {
        &&& r is None
        &&& b.message@ == "Add at least one member"@
        &&& b == (CreationForm { message: b.message, ..a })
    } else {
        r == Some(CreationAction::Begin) && b == a
    }
}

/// What Left or Right does on the form's row: the choice rows step through their lists, a
/// score row buys one point more or less, the skills row moves the skill cursor.
pub open spec fn spec_adjusted(a: CreationForm, b: CreationForm, key: MenuKey, catalog: Catalog) -> bool {
    let row = a.cursor as int;
    if row == ROW_RACE {
        spec_race_set(a, b, spec_cycle(a.race as int, catalog.races@.len() as int, key), catalog)
    } else if row == ROW_CLASS {
        spec_class_set(a, b, spec_cycle(a.class as int, catalog.classes@.len() as int, key), catalog)
    } else if row == ROW_BACKGROUND {
        spec_background_set(a, b, spec_cycle(a.background as int, catalog.backgrounds@.len() as int, key), catalog)
    } else if row == ROW_ALIGNMENT {
        spec_alignment_set(a, b, spec_cycle(a.alignment as int, 9, key))
    } else if ROW_SCORES <= row < ROW_SKILLS {
        let ability = row - ROW_SCORES;
        let step = if key is Right { 1int } else { -1int };
        spec_score_set(a, b, ability, a.scores[ability] + step, catalog)
    } else if row == ROW_SKILLS {
        b == (CreationForm {
            skill_cursor: spec_cycle(a.skill_cursor as int, a.spec_skill_list(catalog).1.len() as int, key) as usize,
            ..a
        })
    } else {
        b == a
    }
}

/// What Enter does on the form's row: on the skills row the skill under the skill cursor is
/// toggled, the buttons ask to add or to begin, other rows do nothing.
pub open spec fn spec_confirmed(a: CreationForm, b: CreationForm, r: Option<CreationAction>, catalog: Catalog, members: int) -> bool {
    let row = a.cursor as int;
    let list = a.spec_skill_list(catalog).1;
    if row == ROW_SKILLS {
        &&& r is None
        &&& if a.skill_cursor < list.len() {
            spec_skill_toggled(a, b, list[a.skill_cursor as int], catalog)
        } else {
            b == a
        }
    } else if row == ROW_ADD {
        spec_added(a, b, r, catalog, members)
    } else if row == ROW_BEGIN {
        spec_begun(a, b, r, members)
    } else {
        r is None && b == a
    }
}

/// What a key does to the form: Up and Down move the cursor, Escape asks to go back, a
/// character and Backspace edit the name on the name row, Left and Right change the row's
/// choice, Enter confirms the row.
pub open spec fn spec_keyed(a: CreationForm, b: CreationForm, r: Option<CreationAction>, key: MenuKey, catalog: Catalog, members: int) -> bool {
    match key {
        MenuKey::Up | MenuKey::Down => {
            &&& r is None
            &&& b == (CreationForm { cursor: spec_cycle(a.cursor as int, ROWS as int, key) as usize, ..a })
        },
        MenuKey::Escape => r == Some(CreationAction::Back) && b == a,
        MenuKey::Char(c) => {
            &&& r is None
            &&& if a.cursor == ROW_NAME {
                &&& b.name@ == spec_cut_name(a.name@.push(c))
                &&& b == (CreationForm { name: b.name, ..a })
            } else {
                b == a
            }
        },
        MenuKey::Backspace => {
            &&& r is None
            &&& if a.cursor == ROW_NAME {
                &&& b.name@ == if a.name@.len() > 0 {
                    a.name@.drop_last()
                } else {
                    a.name@
                }
                &&& b == (CreationForm { name: b.name, ..a })
            } else {
                b == a
            }
        },
        MenuKey::Left | MenuKey::Right => r is None && spec_adjusted(a, b, key, catalog),
        MenuKey::Enter => spec_confirmed(a, b, r, catalog, members),
    }
}

/// The id a choice row shows: the chosen one, or `?` past the list.
pub open spec fn spec_choice_id(list: Seq<String>, i: int) -> Seq<char> {
    if 0 <= i < list.len() {
        list[i]@
    } else {
        "?"@
    }
}

/// A choice row: its label and the chosen id's display name between arrows.
pub open spec fn spec_choice_line(cursor: int, row: int, label: Seq<char>, catalog: Catalog, list: Seq<String>, i: int) -> Seq<char> {
    spec_mark(cursor, row, label + ": < "@ + spec_label_of(catalog.labels@, spec_choice_id(list, i)) + " >"@)
}

/// A score row: the ability, the score right-aligned in two cells between arrows, its cost.
pub open spec fn spec_score_line(form: CreationForm, catalog: Catalog, i: int) -> Seq<char> {
    let score = form.scores[i];
    spec_mark(
        form.cursor as int,
        ROW_SCORES + i,
        ABILITY_SHORT[i]@ + ": < "@ + spec_pad_left(spec_decimal(score as int), 2) + " >   cost "@
            + spec_decimal(catalog.spec_cost(score)),
    )
}

/// One skill of the class list: its box, crossed when picked, and its name, between angle
/// brackets under the skill cursor on the skills row.
pub open spec fn spec_skill_entry(form: CreationForm, i: int, skill: Skill) -> Seq<char> {
    let picked = if spec_has_skill(form.skills@, skill) {
        "x"@
    } else {
        " "@
    };
    let name = spec_words(skill.spec_name());
    "["@ + picked + "] "@ + if i == form.skill_cursor && form.cursor == ROW_SKILLS {
        "<"@ + name + ">"@
    } else {
        name
    }
}

/// The skills row: how many to pick, then the class list's entries two spaces apart.
pub open spec fn spec_skills_line(form: CreationForm, catalog: Catalog) -> Seq<char> {
    let (choose, list) = form.spec_skill_list(catalog);
    spec_mark(
        form.cursor as int,
        ROW_SKILLS as int,
        "Skills (pick "@ + spec_decimal(choose as int) + "): "@ + spec_join(
            Seq::new(list.len(), |i: int| spec_skill_entry(form, i, list[i])),
            "  "@,
        ),
    )
}

/// The head of the creation screen: the party so far, a blank, the name, the three choices
/// and the alignment.
pub open spec fn spec_head_lines(form: CreationForm, catalog: Catalog, members: Seq<String>) -> Seq<Seq<char>> {
    let cursor = form.cursor as int;
    seq![
        "CREATE YOUR PARTY   "@ + spec_decimal(members.len() as int) + " of "@ + spec_decimal(catalog.slots as int) + " members"@,
        if members.len() == 0 {
            "(no members yet)"@
        } else {
            spec_join(views(members), ", "@)
        },
        Seq::<char>::empty(),
        spec_mark(cursor, ROW_NAME as int, "Name: "@ + form.name@ + "_"@),
        spec_choice_line(cursor, ROW_RACE as int, "Race"@, catalog, catalog.races@, form.race as int),
        spec_choice_line(cursor, ROW_CLASS as int, "Class"@, catalog, catalog.classes@, form.class as int),
        spec_choice_line(cursor, ROW_BACKGROUND as int, "Background"@, catalog, catalog.backgrounds@, form.background as int),
        spec_mark(cursor, ROW_ALIGNMENT as int, "Alignment: < "@ + spec_words(ALIGNMENTS[(form.alignment % 9) as int].spec_name()) + " >"@),
    ]
}

/// The tail of the creation screen: the points left, the skills, the two buttons, the
/// message and the help line.
pub open spec fn spec_tail_lines(form: CreationForm, catalog: Catalog) -> Seq<Seq<char>> {
    let cursor = form.cursor as int;
    seq![
        "    Points left: "@ + spec_decimal(catalog.budget - spec_spent(form.scores, catalog)) + " of "@ + spec_decimal(catalog.budget as int),
        spec_skills_line(form, catalog),
        spec_mark(cursor, ROW_ADD as int, "Add member"@),
        spec_mark(cursor, ROW_BEGIN as int, "Begin"@),
        form.message@,
        HELP@,
    ]
}

/// The creation screen as lines: the head, the six score rows, the tail.
pub open spec fn spec_creation_lines(form: CreationForm, catalog: Catalog, members: Seq<String>) -> Seq<Seq<char>> {
    spec_head_lines(form, catalog, members) + Seq::new(6, |i: int| spec_score_line(form, catalog, i))
        + spec_tail_lines(form, catalog)
}

fn choice_line(cursor: usize, row: usize, label: &str, catalog: &Catalog, list: &Vec<String>, i: usize) -> (r: String)
    ensures
        r@ == spec_choice_line(cursor as int, row as int, label@, *catalog, list@, i as int),
{
    let id: &str = if i < list.len() {
        list[i].as_str()
    } else {
        "?"
    };
    let mut text = label.to_owned();
    push_str(&mut text, ": < ");
    push_str(&mut text, catalog.label(id));
    push_str(&mut text, " >");
    mark(cursor, row, text)
}

fn skill_entry(form: &CreationForm, i: usize, skill: Skill) -> (r: String)
    ensures
        r@ == spec_skill_entry(*form, i as int, skill),
{
    proof {
        lemma_skill_at(form.skills@, skill);
    }
    let mut text = "[".to_owned();
    push_str(&mut text, if skill_at(form.skills.as_slice(), skill).is_some() { "x" } else { " " });
    push_str(&mut text, "] ");
    let name = words(skill.name());
    if i == form.skill_cursor && form.cursor == ROW_SKILLS {
        push_str(&mut text, "<");
        push_str(&mut text, name.as_str());
        push_str(&mut text, ">");
    } else {
        push_str(&mut text, name.as_str());
    }
    text
}

impl CreationForm {
    /// The skills the form's class picks, and from which.
    pub open spec fn spec_skill_list(&self, catalog: Catalog) -> (u8, Seq<Skill>) {
        spec_skills_of(catalog.class_skills@, spec_pick(catalog.classes@, self.class as int))
    }

    /// Whether the form is blank, at the catalog's minimum scores, with its cursor on `cursor`.
    pub open spec fn spec_blank(&self, catalog: Catalog, cursor: int) -> bool {
        &&& self.name@ == Seq::<char>::empty()
        &&& self.race == 0 && self.class == 0 && self.background == 0 && self.alignment == 0
        &&& forall|i: int| 0 <= i < 6 ==> self.scores[i] == catalog.min
        &&& self.skills@ == Seq::<Skill>::empty()
        &&& self.skill_cursor == 0 && self.cursor == cursor
        &&& self.message@ == Seq::<char>::empty()
    }

    /// A blank form at the catalog's minimum scores.
    pub fn new(catalog: &Catalog) -> (r: CreationForm)
        ensures
            r.spec_blank(*catalog, 0),
    {
        CreationForm {
            name: String::new(),
            race: 0,
            class: 0,
            background: 0,
            alignment: 0,
            scores: [catalog.min, catalog.min, catalog.min, catalog.min, catalog.min, catalog.min],
            skills: Vec::new(),
            skill_cursor: 0,
            cursor: 0,
            message: String::new(),
        }
    }

    /// How many skills the drafted class picks, and from which.
    pub fn skill_list<'a>(&self, catalog: &'a Catalog) -> (r: (u8, &'a [Skill]))
        ensures
            (r.0, r.1@) == self.spec_skill_list(*catalog),
    {
        let class: &str = if self.class < catalog.classes.len() {
            catalog.classes[self.class].as_str()
        } else {
            ""
        };
        proof {
            reveal_strlit("");
        }
        let mut i: usize = 0;
        while i < catalog.class_skills.len()
            invariant
                i <= catalog.class_skills@.len(),
                class@ == spec_pick(catalog.classes@, self.class as int),
                forall|k: int| 0 <= k < i ==> #[trigger] catalog.class_skills@[k].class@ != class@,
            decreases catalog.class_skills@.len() - i,
        {
            if same(catalog.class_skills[i].class.as_str(), class) {
                proof {
                    lemma_skills_skip(catalog.class_skills@, class@, i as int);
                }
                return (catalog.class_skills[i].choose, catalog.class_skills[i].from.as_slice());
            }
            i = i + 1;
        }
        proof {
            lemma_skills_skip(catalog.class_skills@, class@, i as int);
        }
        (0, &[])
    }

    /// Points spent on the current scores.
    pub fn spent(&self, catalog: &Catalog) -> (r: i64)
        requires
            catalog.wf(),
        ensures
            r == spec_spent(self.scores, *catalog),
    {
        catalog.cost(self.scores[0]) + catalog.cost(self.scores[1]) + catalog.cost(self.scores[2])
            + catalog.cost(self.scores[3]) + catalog.cost(self.scores[4]) + catalog.cost(self.scores[5])
    }

    /// The draft as it stands: the name trimmed, the chosen ids (nothing past a list), the
    /// alignment, the scores and the picks.
    pub fn draft(&self, catalog: &Catalog) -> (r: Draft)
        ensures
            spec_is_draft(r, *self, *catalog),
    {
        Draft {
            name: crate::menu::trim(self.name.as_str()),
            race: pick(&catalog.races, self.race),
            class: pick(&catalog.classes, self.class),
            background: pick(&catalog.backgrounds, self.background),
            alignment: ALIGNMENTS[self.alignment % 9],
            scores: self.scores,
            skills: self.skills.clone(),
        }
    }

    /// Choose a race by its index in the catalog; an index past the list is ignored.
    pub fn set_race(&mut self, index: usize, catalog: &Catalog)
        ensures
            spec_race_set(*old(self), *final(self), index as int, *catalog),
    {
        if index < catalog.races.len() {
            self.race = index;
        }
    }

    /// Choose a class. A different class has a different skill list, so the picks go.
    pub fn set_class(&mut self, index: usize, catalog: &Catalog)
        ensures
            spec_class_set(*old(self), *final(self), index as int, *catalog),
    {
        if index < catalog.classes.len() && index != self.class {
            self.class = index;
            self.skills.clear();
            self.skill_cursor = 0;
        }
    }

    /// Choose a background by its index in the catalog.
    pub fn set_background(&mut self, index: usize, catalog: &Catalog)
        ensures
            spec_background_set(*old(self), *final(self), index as int, *catalog),
    {
        if index < catalog.backgrounds.len() {
            self.background = index;
        }
    }

    /// Choose an alignment by its index among the nine.
    pub fn set_alignment(&mut self, index: usize)
        ensures
            spec_alignment_set(*old(self), *final(self), index as int),
    {
        if index < 9 {
            self.alignment = index;
        }
    }

    /// Buy a score, held inside what point buy sells. The budget is checked on `add`, so a
    /// player can overspend on the way to a build.
    pub fn set_score(&mut self, ability: usize, value: i64, catalog: &Catalog)
        requires
            ability < 6 ==> catalog.min <= catalog.max,
        ensures
            spec_score_set(*old(self), *final(self), ability as int, value as int, *catalog),
    {
        if ability < 6 {
            let held: u8 = if value < catalog.min as i64 {
                catalog.min
            } else if value > catalog.max as i64 {
                catalog.max
            } else {
                value as u8
            };
            self.scores[ability] = held;
        }
    }

    /// Pick a skill of the class's list, or let it go; a pick past the class's count is
    /// refused with a message.
    pub fn toggle_skill(&mut self, skill: Skill, catalog: &Catalog)
        ensures
            spec_skill_toggled(*old(self), *final(self), skill, *catalog),
    {
        let (choose, list) = self.skill_list(catalog);
        proof {
            lemma_skill_at(list@, skill);
            lemma_skill_at(self.skills@, skill);
        }
        if skill_at(list, skill).is_none() {
            return;
        }
        match skill_at(self.skills.as_slice(), skill) {
            Some(at) => {
                self.skills.remove(at);
            },
            None => {
                if self.skills.len() < choose as usize {
                    self.skills.push(skill);
                } else {
                    self.message = text_with_number("This class picks ", choose as i64, " skills");
                }
            },
        }
    }

    /// Ask to add the draft to the party; what is wrong with it becomes the message.
    pub fn add(&mut self, catalog: &Catalog, members: usize) -> (r: Option<CreationAction>)
        requires
            catalog.wf(),
        ensures
            spec_added(*old(self), *final(self), r, *catalog, members as int),
    {
        let (choose, _) = self.skill_list(catalog);
        let spent = self.spent(catalog);
        if members >= catalog.slots {
            self.message = "The party is full".to_owned();
            None
        } else if crate::menu::trim(self.name.as_str()).unicode_len() == 0 {
            self.message = "Give the character a name".to_owned();
            None
        } else if spent > catalog.budget {
            let mut message = crate::text::decimal(spent);
            push_str(&mut message, " points spent of ");
            push_decimal(&mut message, catalog.budget);
            self.message = message;
            None
        } else if self.skills.len() != choose as usize {
            self.message = text_with_number("Pick ", choose as i64, " skills");
            None
        } else {
            self.message = String::new();
            Some(CreationAction::Add(self.draft(catalog)))
        }
    }

    /// Ask to start exploring; an empty party is refused with a message.
    pub fn begin(&mut self, members: usize) -> (r: Option<CreationAction>)
        ensures
            spec_begun(*old(self), *final(self), r, members as int),
    {
        if members == 0 {
            self.message = "Add at least one member".to_owned();
            None
        } else {
            Some(CreationAction::Begin)
        }
    }

    fn adjust(&mut self, key: MenuKey, catalog: &Catalog)
        requires
            ROW_SCORES <= old(self).cursor < ROW_SKILLS ==> catalog.min <= catalog.max,
        ensures
            spec_adjusted(*old(self), *final(self), key, *catalog),
    {
        if self.cursor == ROW_RACE {
            let index = cycle(self.race, catalog.races.len(), key);
            self.set_race(index, catalog);
        } else if self.cursor == ROW_CLASS {
            let index = cycle(self.class, catalog.classes.len(), key);
            self.set_class(index, catalog);
        } else if self.cursor == ROW_BACKGROUND {
            let index = cycle(self.background, catalog.backgrounds.len(), key);
            self.set_background(index, catalog);
        } else if self.cursor == ROW_ALIGNMENT {
            let index = cycle(self.alignment, 9, key);
            self.set_alignment(index);
        } else if ROW_SCORES <= self.cursor && self.cursor < ROW_SKILLS {
            let ability = self.cursor - ROW_SCORES;
            let step: i64 = if matches!(key, MenuKey::Right) {
                1
            } else {
                -1
            };
            let value = self.scores[ability] as i64 + step;
            self.set_score(ability, value, catalog);
        } else if self.cursor == ROW_SKILLS {
            let (_, list) = self.skill_list(catalog);
            self.skill_cursor = cycle(self.skill_cursor, list.len(), key);
        }
    }

    fn confirm(&mut self, catalog: &Catalog, members: usize) -> (r: Option<CreationAction>)
        requires
            old(self).cursor == ROW_ADD ==> catalog.wf(),
        ensures
            spec_confirmed(*old(self), *final(self), r, *catalog, members as int),
    {
        if self.cursor == ROW_SKILLS {
            let (_, list) = self.skill_list(catalog);
            if self.skill_cursor < list.len() {
                let skill = list[self.skill_cursor];
                self.toggle_skill(skill, catalog);
            }
            None
        } else if self.cursor == ROW_ADD {
            self.add(catalog, members)
        } else if self.cursor == ROW_BEGIN {
            self.begin(members)
        } else {
            None
        }
    }

    /// Handle a key; `members` is how many the party already has.
    pub fn key(&mut self, key: MenuKey, catalog: &Catalog, members: usize) -> (r: Option<CreationAction>)
        requires
            (key is Left || key is Right) && ROW_SCORES <= old(self).cursor < ROW_SKILLS
                ==> catalog.min <= catalog.max,
            key is Enter && old(self).cursor == ROW_ADD ==> catalog.wf(),
        ensures
            spec_keyed(*old(self), *final(self), r, key, *catalog, members as int),
    {
        match key {
            MenuKey::Up | MenuKey::Down => {
                self.cursor = cycle(self.cursor, ROWS, key);
                None
            },
            MenuKey::Escape => Some(CreationAction::Back),
            MenuKey::Char(c) => {
                if self.cursor == ROW_NAME {
                    let mut name = self.name.clone();
                    push_char(&mut name, c);
                    self.set_name(name.as_str());
                }
                None
            },
            MenuKey::Backspace => {
                if self.cursor == ROW_NAME {
                    pop_char(&mut self.name);
                }
                None
            },
            MenuKey::Left | MenuKey::Right => {
                self.adjust(key, catalog);
                None
            },
            MenuKey::Enter => self.confirm(catalog, members),
        }
    }

    /// Reset the draft after a member was added, keeping the cursor.
    pub fn next_member(&mut self, catalog: &Catalog)
        ensures
            final(self).spec_blank(*catalog, old(self).cursor as int),
    {
        let cursor = self.cursor;
        *self = CreationForm::new(catalog);
        self.cursor = cursor;
    }

    fn score_line(&self, catalog: &Catalog, i: usize) -> (r: String)
        requires
            i < 6,
        ensures
            r@ == spec_score_line(*self, *catalog, i as int),
    {
        let score = self.scores[i];
        let mut text = ABILITY_SHORT[i].to_owned();
        push_str(&mut text, ": < ");
        let digits = crate::text::decimal(score as i64);
        push_padded_left(&mut text, digits.as_str(), 2);
        push_str(&mut text, " >   cost ");
        push_decimal(&mut text, catalog.cost(score));
        mark(self.cursor, ROW_SCORES + i, text)
    }

    fn skills_line(&self, catalog: &Catalog) -> (r: String)
        ensures
            r@ == spec_skills_line(*self, *catalog),
    {
        let (choose, list) = self.skill_list(catalog);
        let ghost entries = Seq::new(list@.len(), |k: int| spec_skill_entry(*self, k, list@[k]));
        let mut parts: Vec<String> = Vec::new();
        let mut i: usize = 0;
        while i < list.len()
            invariant
                i <= list@.len(),
                parts@.len() == i,
                entries == Seq::new(list@.len(), |k: int| spec_skill_entry(*self, k, list@[k])),
                forall|k: int| 0 <= k < i ==> #[trigger] parts@[k]@ == entries[k],
            decreases list@.len() - i,
        {
            parts.push(skill_entry(self, i, list[i]));
            i = i + 1;
        }
        proof {
            assert(views(parts@) =~= entries);
        }
        let mut text = text_with_number("Skills (pick ", choose as i64, "): ");
        push_join(&mut text, parts.as_slice(), "  ");
        mark(self.cursor, ROW_SKILLS, text)
    }

    fn head_lines(&self, catalog: &Catalog, members: &[String]) -> (r: Vec<String>)
        ensures
            views(r@) == spec_head_lines(*self, *catalog, members@),
    {
        let mut lines: Vec<String> = Vec::new();
        let mut head = "CREATE YOUR PARTY   ".to_owned();
        push_digits(&mut head, members.len() as u64);
        push_str(&mut head, " of ");
        push_digits(&mut head, catalog.slots as u64);
        push_str(&mut head, " members");
        lines.push(head);
        if members.len() == 0 {
            lines.push("(no members yet)".to_owned());
        } else {
            let mut names = String::new();
            push_join(&mut names, members, ", ");
            lines.push(names);
        }
        lines.push(String::new());
        let mut name = "Name: ".to_owned();
        push_str(&mut name, self.name.as_str());
        push_str(&mut name, "_");
        lines.push(mark(self.cursor, ROW_NAME, name));
        lines.push(choice_line(self.cursor, ROW_RACE, "Race", catalog, &catalog.races, self.race));
        lines.push(choice_line(self.cursor, ROW_CLASS, "Class", catalog, &catalog.classes, self.class));
        lines.push(choice_line(self.cursor, ROW_BACKGROUND, "Background", catalog, &catalog.backgrounds, self.background));
        let mut alignment = "Alignment: < ".to_owned();
        let aligned = words(ALIGNMENTS[self.alignment % 9].name());
        push_str(&mut alignment, aligned.as_str());
        push_str(&mut alignment, " >");
        lines.push(mark(self.cursor, ROW_ALIGNMENT, alignment));
        proof {
            assert(views(lines@) =~= spec_head_lines(*self, *catalog, members@));
        }
        lines
    }

    fn tail_lines(&self, catalog: &Catalog) -> (r: Vec<String>)
        requires
            catalog.wf(),
        ensures
            views(r@) == spec_tail_lines(*self, *catalog),
    {
        let mut lines: Vec<String> = Vec::new();
        let spent = self.spent(catalog);
        let mut left = text_with_number("    Points left: ", catalog.budget - spent, " of ");
        push_decimal(&mut left, catalog.budget);
        lines.push(left);
        lines.push(self.skills_line(catalog));
        lines.push(mark(self.cursor, ROW_ADD, "Add member".to_owned()));
        lines.push(mark(self.cursor, ROW_BEGIN, "Begin".to_owned()));
        lines.push(self.message.clone());
        lines.push(HELP.to_owned());
        proof {
            assert(views(lines@) =~= spec_tail_lines(*self, *catalog));
        }
        lines
    }

    /// The screen as lines; `members` are the party's current names.
    pub fn lines(&self, catalog: &Catalog, members: &[String]) -> (r: Vec<String>)
        requires
            catalog.wf(),
        ensures
            views(r@) == spec_creation_lines(*self, *catalog, members@),
    {
        let mut lines = self.head_lines(catalog, members);
        let mut a: usize = 0;
        while a < 6
            invariant
                a <= 6,
                views(lines@) == spec_head_lines(*self, *catalog, members@) + Seq::new(
                    a as nat,
                    |i: int| spec_score_line(*self, *catalog, i),
                ),
            decreases 6 - a,
        {
            let ghost before = lines@;
            lines.push(self.score_line(catalog, a));
            proof {
                assert(views(lines@) =~= views(before).push(spec_score_line(*self, *catalog, a as int)));
                assert(views(lines@) =~= spec_head_lines(*self, *catalog, members@) + Seq::new(
                    (a + 1) as nat,
                    |i: int| spec_score_line(*self, *catalog, i),
                ));
            }
            a = a + 1;
        }
        let mut tail = self.tail_lines(catalog);
        lines.append(&mut tail);
        proof {
            assert(views(lines@) =~= spec_creation_lines(*self, *catalog, members@));
        }
        lines
    }

    /// The name as typed, cut at `NAME_LIMIT` bytes on a character boundary.
    pub fn set_name(&mut self, name: &str)
        ensures
            final(self).name@ == spec_cut_name(name@),
            *final(self) == (CreationForm { name: final(self).name, ..*old(self) }),
    {
        let n = name.unicode_len();
        let mut bytes: usize = 0;
        let mut end: usize = 0;
        let mut fits = true;
        proof {
            assert(name@.take(0) =~= Seq::<char>::empty());
        }
        while fits && end < n
            invariant
                end <= n,
                n == name@.len(),
                bytes == encode_utf8(name@.take(end as int)).len(),
                bytes <= NAME_LIMIT,
                !fits ==> end < n && encode_utf8(name@.take(end + 1)).len() > NAME_LIMIT,
            decreases 2 * (n - end) + if fits { 1int } else { 0int },
        {
            let c = name.get_char(end);
            let w = char_len(c);
            proof {
                assert(name@.take(end + 1) =~= name@.take(end as int).push(c));
                crate::text::lemma_utf8_push(name@.take(end as int), c);
            }
            if bytes + w > NAME_LIMIT {
                fits = false;
            } else {
                bytes = bytes + w;
                end = end + 1;
            }
        }
        proof {
            if fits {
                assert(name@.take(n as int) =~= name@);
                assert(spec_cut_len(name@, n as int) == n);
            } else {
                assert forall|j: int| end < j <= n implies encode_utf8(#[trigger] name@.take(j)).len() > NAME_LIMIT by {
                    crate::text::lemma_utf8_prefix_len(name@, end + 1, j);
                }
                lemma_cut_len_settles(name@, n as int, end as int);
            }
        }
        let mut out = String::new();
        let mut i: usize = 0;
        while i < end
            invariant
                i <= end,
                end <= n,
                n == name@.len(),
                out@ == name@.take(i as int),
            decreases end - i,
        {
            push_char(&mut out, name.get_char(i));
            proof {
                assert(name@.take(i + 1) =~= name@.take(i as int).push(name@[i as int]));
            }
            i = i + 1;
        }
        self.name = out;
    }
}

/// Where the encoding first outgrows the limit the cut settles: when the first `end`
/// characters fit and no longer prefix up to `k` does, the cut of the first `k` is `end`.
proof fn lemma_cut_len_settles(name: Seq<char>, k: int, end: int)
    requires
        0 <= end <= k <= name.len(),
        encode_utf8(name.take(end)).len() <= NAME_LIMIT,
        forall|j: int| end < j <= k ==> encode_utf8(#[trigger] name.take(j)).len() > NAME_LIMIT,
    ensures
        spec_cut_len(name, k) == end,
    decreases k,
{
    if k > end {
        lemma_cut_len_settles(name, k - 1, end);
    }
}

/// The cut of the first `n` characters: no more than `n`, its encoding fits the limit, and
/// every longer prefix up to `n` outgrows it.
proof fn lemma_cut_len(name: Seq<char>, n: int)
    requires
        0 <= n <= name.len(),
    ensures
        0 <= spec_cut_len(name, n) <= n,
        encode_utf8(name.take(spec_cut_len(name, n))).len() <= NAME_LIMIT,
        forall|j: int| spec_cut_len(name, n) < j <= n ==> encode_utf8(#[trigger] name.take(j)).len() > NAME_LIMIT,
    decreases n,
{
    if n > 0 && encode_utf8(name.take(n)).len() > NAME_LIMIT {
        lemma_cut_len(name, n - 1);
    } else if n == 0 {
        assert(name.take(0) =~= Seq::<char>::empty());
        assert(encode_utf8(Seq::<char>::empty()) =~= Seq::<u8>::empty());
    }
}

/// A name is cut at `NAME_LIMIT` bytes on a character boundary: the cut is a prefix of the
/// name, its UTF-8 encoding fits the limit, and it is the longest such prefix.
pub proof fn lemma_cut_name_fits(name: Seq<char>)
    ensures
        spec_cut_name(name).len() <= name.len(),
        spec_cut_name(name) == name.take(spec_cut_name(name).len() as int),
        encode_utf8(spec_cut_name(name)).len() <= NAME_LIMIT,
        spec_cut_name(name).len() < name.len() ==> encode_utf8(name.take(spec_cut_name(name).len() as int + 1)).len()
            > NAME_LIMIT,
{
    lemma_cut_len(name, name.len() as int);
    let k = spec_cut_len(name, name.len() as int);
    assert(spec_cut_name(name) == name.take(k));
    assert(name.take(k).len() == k);
}

/// A skill not yet picked stands at the end of the picks once pushed.
proof fn lemma_skill_at_push(skills: Seq<Skill>, skill: Skill)
    requires
        !spec_has_skill(skills, skill),
    ensures
        spec_skill_at(skills.push(skill), skill) == Some(skills.len() as int),
    decreases skills.len(),
{
    if skills.len() > 0 {
        assert(skills[0] != skill);
        assert(!spec_has_skill(skills.drop_first(), skill)) by {
            if spec_has_skill(skills.drop_first(), skill) {
                let k = choose|k: int| 0 <= k < skills.drop_first().len() && skills.drop_first()[k] == skill;
                assert(skills[k + 1] == skill);
            }
        }
        lemma_skill_at_push(skills.drop_first(), skill);
        assert(skills.push(skill).drop_first() =~= skills.drop_first().push(skill));
    } else {
        assert(skills.push(skill)[0] == skill);
    }
}

/// Toggling a skill twice undoes it: a skill of the class's list that was not picked, with
/// room for one more pick, is picked and then let go, and the picks are as they were.
pub proof fn lemma_toggle_twice_undoes(a: CreationForm, b: CreationForm, c: CreationForm, skill: Skill, catalog: Catalog)
    requires
        spec_has_skill(a.spec_skill_list(catalog).1, skill),
        !spec_has_skill(a.skills@, skill),
        a.skills@.len() < a.spec_skill_list(catalog).0,
        spec_skill_toggled(a, b, skill, catalog),
        spec_skill_toggled(b, c, skill, catalog),
    ensures
        b.skills@ == a.skills@.push(skill),
        c.skills@ == a.skills@,
        c == (CreationForm { skills: c.skills, ..a }),
{
    lemma_skill_at(a.skills@, skill);
    lemma_skill_at_push(a.skills@, skill);
    assert(a.skills@.push(skill).remove(a.skills@.len() as int) =~= a.skills@);
}

/// Point buy holds a score inside its limits: a bought score is never below the minimum nor
/// above the maximum, and a value inside them is bought as it is.
pub proof fn lemma_held_inside(value: int, catalog: Catalog)
    requires
        catalog.min <= catalog.max,
    ensures
        catalog.min <= spec_held(value, catalog) <= catalog.max,
        catalog.min <= value <= catalog.max ==> spec_held(value, catalog) == value,
{
}

/// Different skills have different names, and different alignments do.
pub proof fn lemma_names_are_distinct(a: Skill, b: Skill, c: Alignment, d: Alignment)
    ensures
        a != b ==> a.spec_name() != b.spec_name(),
        c != d ==> c.spec_name() != d.spec_name(),
{
    reveal_strlit("Acrobatics");
    reveal_strlit("AnimalHandling");
    reveal_strlit("Arcana");
    reveal_strlit("Athletics");
    reveal_strlit("Deception");
    reveal_strlit("History");
    reveal_strlit("Insight");
    reveal_strlit("Intimidation");
    reveal_strlit("Investigation");
    reveal_strlit("Medicine");
    reveal_strlit("Nature");
    reveal_strlit("Perception");
    reveal_strlit("Performance");
    reveal_strlit("Persuasion");
    reveal_strlit("Religion");
    reveal_strlit("SleightOfHand");
    reveal_strlit("Stealth");
    reveal_strlit("Survival");
    reveal_strlit("LawfulGood");
    reveal_strlit("NeutralGood");
    reveal_strlit("ChaoticGood");
    reveal_strlit("LawfulNeutral");
    reveal_strlit("Neutral");
    reveal_strlit("ChaoticNeutral");
    reveal_strlit("LawfulEvil");
    reveal_strlit("NeutralEvil");
    reveal_strlit("ChaoticEvil");
    if a != b {
        let (x, y) = (a.spec_name(), b.spec_name());
        assert(x.len() != y.len() || x[0] != y[0] || x[1] != y[1] || x[2] != y[2] || x[3] != y[3]);
    }
    if c != d {
        let (x, y) = (c.spec_name(), d.spec_name());
        assert(x.len() != y.len() || x[0] != y[0] || x[6] != y[6] || x[7] != y[7]);
    }
}

} // verus!
